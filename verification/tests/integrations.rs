use hmac::Mac;
use molt_hub_server::credentials::{CredentialScope, MemoryStore};
use molt_hub_server::domain::{DomainEvent, EventEnvelope, Priority};
use molt_hub_server::integrations::github::{
    build_github_search_q, default_issue_state_filter, github_error_to_http, github_external_id,
    github_priority, issue_to_ui, GitHubError, GitHubIssue, GitHubLabel,
};
use molt_hub_server::integrations::github_app::{
    github_app_slug, next_repositories_page, parse_app_id_setting, parse_u64, pem_from_inline,
    urlencoding_encode, verify_webhook_signature, GithubAppCredentials, GithubAppError,
};
use molt_hub_server::integrations::github_import::{
    empty_import_response, github_import_events, github_import_response,
    github_imported_external_ids, new_github_import_events, plan_github_import,
};
use molt_hub_server::integrations::jira::{
    import_stage_of, jira_error_to_http, map_priority, raw_to_issue, requested_import_stage,
    select_cloud_id, summarize_jira_error_response, ImportError, IssueFields, IssueRaw, JiraClient,
    JiraError, JiraErrorEnvelope, PriorityField, StatusField,
};
use molt_hub_server::integrations::json::{extract_plain_text, JsonValue};
use molt_hub_server::integrations::oauth_clients::{
    github_client_credentials, jira_client_credentials, normalize_oauth_clients, trim_opt,
    with_default_client_ids, OAuthClientsFile, OAuthProviderEntry, DEFAULT_GITHUB_OAUTH_CLIENT_ID,
    DEFAULT_JIRA_OAUTH_CLIENT_ID,
};
use molt_hub_server::integrations::oauth_common::{encode_hex_lower, oauth_success_html, random_oauth_state};
use molt_hub_server::integrations::oauth_redirect::{
    is_loopback_http_oauth_redirect, reject_loopback_oauth_redirect, required_https_bridge,
    resolve_redirect_uri, DEFAULT_LOCAL_API_PORT,
};
use molt_hub_server::integrations::oauth_tokens::{
    forget_github_tokens, forget_jira_tokens, github_install_url, github_status_response,
    jira_authorization_scopes, jira_status_response, jira_tokens_after_callback, join_scopes,
    oauth_error_to_http, token_parse_failure, CloudResource, GithubStoredTokens, JiraStoredTokens,
    JiraTokenResponse, OAuthError,
};
use molt_hub_server::integrations::oauth_pending::{PendingAuthorizations, UnknownState};
use molt_hub_server::integrations::oauth_tokens::{
    apply_refresh, refresh_token_to_use, stored_after_callback, NoRefreshToken,
};
use molt_hub_server::credentials::scope::ProjectIdQuery;
use molt_hub_server::integrations::github::{
    api_error, check_auth, github_api_message, issue_not_found, repo_search_query, GitHubClient, IssuesQuery,
};
use molt_hub_server::integrations::jira::{jira_issue_response_error, jira_response_error, ImportRequest};

// ── OAuth redirect ──────────────────────────────────────────────────────────

#[test]
fn loopback_http_redirect_detected() {
    for bad in [
        "http://127.0.0.1:13401/api/integrations/jira/oauth/callback",
        "http://localhost:13401/cb",
        "  HTTP://LOCALHOST/x  ",
        "http://[::1]:8080/callback",
    ] {
        assert!(is_loopback_http_oauth_redirect(bad), "expected loopback: {bad:?}");
    }
}

#[test]
fn public_https_redirect_allowed() {
    for ok in ["https://ferndot.github.io/molt-hub/oauth-bridge/jira.html", "http://192.168.1.10/callback"] {
        assert!(!is_loopback_http_oauth_redirect(ok), "expected non-loopback: {ok:?}");
    }
}

#[test]
fn redirect_resolution() {
    assert_eq!(DEFAULT_LOCAL_API_PORT, 13401);
    assert_eq!(required_https_bridge("jira", &Some("  https://x/cb ".into())), Some("https://x/cb".into()));
    assert_eq!(required_https_bridge("jira", &Some("   ".into())), None);
    assert!(!reject_loopback_oauth_redirect("MOLTHUB_JIRA", " http://localhost/cb"));
    assert!(reject_loopback_oauth_redirect("MOLTHUB_JIRA", "https://x/cb"));
    assert_eq!(resolve_redirect_uri(None, &Some("https://bridge/cb".into())), Some("https://bridge/cb".into()));
    assert_eq!(resolve_redirect_uri(Some("http://127.0.0.1/cb".into()), &Some("https://bridge".into())), None);
    assert_eq!(resolve_redirect_uri(Some("https://env/cb".into()), &None), Some("https://env/cb".into()));
    assert_eq!(resolve_redirect_uri(None, &None), None);
}

// ── OAuth common ────────────────────────────────────────────────────────────

fn assert_state_token(t: &str) {
    assert_eq!(t.len(), 32);
    assert!(t.chars().all(|c| c.is_ascii_hexdigit()));
}

#[test]
fn random_oauth_state_hex_len() {
    assert_state_token(&random_oauth_state());
}

#[test]
fn random_oauth_state_is_nonempty() {
    assert!(!random_oauth_state().is_empty());
}

#[test]
fn random_oauth_state_is_hex() {
    assert_state_token(&random_oauth_state());
}

#[test]
fn random_oauth_state_differs_across_calls() {
    assert_ne!(random_oauth_state(), random_oauth_state());
}

#[test]
fn github_oauth_handlers_generate_state_token_is_nonempty() {
    let token = random_oauth_state();
    assert!(!token.is_empty());
    assert_eq!(token.len(), 32);
}

#[test]
fn github_oauth_handlers_generate_state_token_is_hex() {
    assert!(random_oauth_state().chars().all(|c| c.is_ascii_hexdigit()));
}

#[test]
fn github_oauth_handlers_generate_state_token_differs_across_calls() {
    assert_ne!(random_oauth_state(), random_oauth_state());
}

#[test]
fn oauth_handlers_generate_state_token_is_nonempty() {
    let token = random_oauth_state();
    assert!(!token.is_empty());
    assert_eq!(token.len(), 32);
}

#[test]
fn oauth_handlers_generate_state_token_is_hex() {
    assert!(random_oauth_state().chars().all(|c| c.is_ascii_hexdigit()));
}

#[test]
fn oauth_handlers_generate_state_token_differs_across_calls() {
    assert_ne!(random_oauth_state(), random_oauth_state());
}

#[test]
fn hex_encoding_is_lowercase_pairs() {
    assert_eq!(encode_hex_lower(&vec![0x00, 0xab, 0x0f, 0xff]), "00ab0fff");
}

#[test]
fn success_page_names_provider() {
    let page = oauth_success_html("GitHub");
    assert!(page.starts_with("<!DOCTYPE html>"));
    assert!(page.contains("<title>GitHub Connected</title>"));
    assert!(page.contains("<h1>GitHub connected</h1>"));
    assert!(page.contains("*{margin:0;padding:0;box-sizing:border-box}"));
    assert!(page.ends_with("</html>"));
}

// ── OAuth clients ───────────────────────────────────────────────────────────

#[test]
fn trims_whitespace_in_json() {
    let f = OAuthClientsFile {
        github: OAuthProviderEntry { client_id: None, client_secret: Some("  x  ".into()) },
        jira: OAuthProviderEntry::default(),
    };
    let f = normalize_oauth_clients(f);
    assert_eq!(f.github.client_secret.as_deref(), Some("x"));
}

#[test]
fn parses_minimal_json() {
    let f = normalize_oauth_clients(OAuthClientsFile {
        github: OAuthProviderEntry { client_id: Some("gh_id".into()), client_secret: Some("gh_sec".into()) },
        jira: OAuthProviderEntry { client_id: Some("j_id".into()), client_secret: Some("j_sec".into()) },
    });
    assert_eq!(f.github.client_id.as_deref(), Some("gh_id"));
    assert_eq!(f.github.client_secret.as_deref(), Some("gh_sec"));
    assert_eq!(f.jira.client_id.as_deref(), Some("j_id"));
}

#[test]
fn client_credentials_fall_back_to_defaults() {
    assert_eq!(trim_opt(Some("  ".into())), None);
    assert_eq!(github_client_credentials(None), (DEFAULT_GITHUB_OAUTH_CLIENT_ID.to_string(), None));
    let f = with_default_client_ids(OAuthClientsFile {
        github: OAuthProviderEntry { client_id: None, client_secret: Some("s".into()) },
        jira: OAuthProviderEntry::default(),
    });
    assert_eq!(f.github.client_id.as_deref(), Some("Iv23lip4ZuqkEmT9Z2U0"));
    assert_eq!(github_client_credentials(Some(&f)), ("Iv23lip4ZuqkEmT9Z2U0".to_string(), Some("s".to_string())));
    assert_eq!(jira_client_credentials(Some(&f)), (DEFAULT_JIRA_OAUTH_CLIENT_ID.to_string(), None));
}

// ── GitHub ──────────────────────────────────────────────────────────────────

fn issue(labels: &[&str]) -> GitHubIssue {
    GitHubIssue {
        number: 7,
        title: "Fix the thing".into(),
        state: "open".into(),
        body: Some("Body".into()),
        html_url: "https://github.com/acme/app/issues/7".into(),
        labels: labels.iter().map(|l| GitHubLabel { name: l.to_string() }).collect(),
    }
}

#[test]
fn build_github_search_q_open_and_labels() {
    let q = build_github_search_q("open", "bug, ui");
    assert!(q.contains("is:open"));
    assert!(q.contains("label:bug"));
    assert!(q.contains("label:ui"));
}

#[test]
fn build_github_search_q_all_skips_is() {
    let q = build_github_search_q("all", "");
    assert!(!q.contains("is:"));
}

#[test]
fn build_github_search_q_exact_text() {
    assert_eq!(build_github_search_q("open", "bug, ui"), "is:open label:bug label:ui");
    assert_eq!(build_github_search_q("closed", " ,x,,"), "is:closed label:x");
    assert_eq!(build_github_search_q("all", ""), "");
    assert_eq!(default_issue_state_filter(), "open");
}

#[test]
fn github_external_id_format() {
    assert_eq!(github_external_id("acme", "app", 7), "acme/app#7");
}

#[test]
fn github_priority_from_labels() {
    assert_eq!(github_priority(&issue(&["bug", "P0"])), Priority::P0);
    assert_eq!(github_priority(&issue(&["high"])), Priority::P1);
    assert_eq!(github_priority(&issue(&["low", "priority:high"])), Priority::P1);
    assert_eq!(github_priority(&issue(&["priority:low"])), Priority::P3);
    assert_eq!(github_priority(&issue(&["enhancement"])), Priority::P2);
}

#[test]
fn github_error_display() {
    assert!(GitHubError::AuthError { status: 401 }.to_string().contains("401"));
    assert!(GitHubError::ParseError("bad json".into()).to_string().contains("bad json"));
    let e = GitHubError::ApiError { status: 422, message: "Validation Failed".into() };
    assert!(e.to_string().contains("422"));
    assert!(e.to_string().contains("Validation Failed"));
    assert_eq!(GitHubError::NotFound { repo: "o/r".into(), number: 99 }.to_string(), "issue not found: o/r#99");
}

#[test]
fn github_error_to_http_maps_auth_error() {
    assert_eq!(github_error_to_http(&GitHubError::AuthError { status: 401 }).0, 401);
}

#[test]
fn github_error_to_http_maps_parse_error() {
    assert_eq!(github_error_to_http(&GitHubError::ParseError("bad json".into())).0, 500);
}

#[test]
fn github_error_to_http_maps_http_error() {
    let (status, msg) = github_error_to_http(&GitHubError::AuthError { status: 403 });
    assert_eq!(status, 401);
    assert!(msg.contains("403"));
}

#[test]
fn github_error_to_http_maps_not_found() {
    let (status, _) = github_error_to_http(&GitHubError::NotFound { repo: "o/r".into(), number: 99 });
    assert_eq!(status, 404);
}

#[test]
fn github_api_error_keeps_client_status() {
    assert_eq!(github_error_to_http(&GitHubError::ApiError { status: 422, message: "m".into() }), (422, "m".to_string()));
    assert_eq!(github_error_to_http(&GitHubError::ApiError { status: 503, message: "m".into() }).0, 502);
    assert_eq!(github_error_to_http(&GitHubError::HttpError("down".into())).0, 502);
}

#[test]
fn issue_to_ui_keeps_label_names() {
    let ui = issue_to_ui(issue(&["bug", "urgent"]));
    assert_eq!(ui.number, 7);
    assert_eq!(ui.labels, vec!["bug", "urgent"]);
}

#[test]
fn import_plan_skips_known_and_repeated_issues() {
    let seen = vec!["acme/app#1".to_string()];
    let plan = plan_github_import(seen, "acme", "app", &vec![1, 2, 2, 3]);
    assert_eq!(plan.to_fetch, vec![2, 3]);
    assert_eq!(plan.skipped, 2);
}

#[test]
fn reimport_fetches_nothing() {
    let first = plan_github_import(vec![], "o", "r", &vec![5, 6]);
    let seen: Vec<String> = first.to_fetch.iter().map(|n| github_external_id("o", "r", *n)).collect();
    let second = plan_github_import(seen, "o", "r", &vec![5, 6]);
    assert!(second.to_fetch.is_empty());
    assert_eq!(second.skipped, 2);
}

fn imported_event(source: &str, id: &str) -> EventEnvelope {
    EventEnvelope {
        id: "e".into(),
        task_id: Some("t".into()),
        project_id: "default".into(),
        session_id: "s".into(),
        timestamp: "2024-01-01T00:00:00Z".into(),
        caused_by: None,
        payload: DomainEvent::TaskImported { source: source.into(), external_id: id.into(), external_url: "u".into() },
    }
}

#[test]
fn imported_ids_only_from_github() {
    let events = vec![imported_event("github", "a/b#1"), imported_event("jira", "J-1"), imported_event("github", "a/b#2")];
    let mut ids = github_imported_external_ids(&events);
    ids.sort();
    assert_eq!(ids, vec!["a/b#1", "a/b#2"]);
}

#[test]
fn import_events_link_created_and_imported() {
    let iss = issue(&["critical"]);
    let evs = github_import_events("T".into(), "E1".into(), "E2".into(), "S", "t1".into(), "t2".into(), &iss, "acme/app#7");
    assert_eq!(evs.len(), 2);
    assert_eq!(evs[1].caused_by.as_deref(), Some("E1"));
    match &evs[0].payload {
        DomainEvent::TaskCreated { title, initial_stage, priority, .. } => {
            assert_eq!(title, "Fix the thing");
            assert_eq!(initial_stage, "triage");
            assert_eq!(*priority, Priority::P0);
        }
        other => panic!("unexpected {other:?}"),
    }
    let fresh = new_github_import_events("S", &iss, "acme/app#7");
    assert_eq!(fresh[1].task_id, fresh[0].task_id);
    assert_eq!(fresh[1].caused_by.as_ref(), Some(&fresh[0].id));
}

#[test]
fn import_response_messages() {
    assert_eq!(github_import_response(3, 0, "o", "r").message, "Imported 3 issue(s) from o/r.");
    assert_eq!(github_import_response(0, 2, "o", "r").message, "All 2 issue(s) from o/r were already imported.");
    let r = github_import_response(1, 2, "o", "r");
    assert_eq!(r.imported, 3);
    assert_eq!(r.message, "Imported 1 new issue(s) from o/r; 2 already in hub.");
    assert_eq!(empty_import_response().message, "No issues selected.");
}

// ── GitHub App ──────────────────────────────────────────────────────────────

#[test]
fn verify_webhook_signature_accepts_valid_mac() {
    let secret = b"mysecret";
    let body = b"payload";
    let mut mac = <hmac::Hmac<sha2::Sha256> as Mac>::new_from_slice(secret).unwrap();
    mac.update(body);
    let hex = hex::encode(mac.finalize().into_bytes());
    let header = format!("sha256={hex}");
    assert!(verify_webhook_signature(secret, body, &header));
    let upper = format!("sha256= {} ", hex.to_uppercase());
    assert!(verify_webhook_signature(secret, body, &upper));
}

#[test]
fn verify_webhook_signature_rejects_bad_mac() {
    assert!(!verify_webhook_signature(b"mysecret", b"payload", "sha256=deadbeef"));
    assert!(!verify_webhook_signature(b"mysecret", b"payload", "sha1=deadbeef"));
    assert!(!verify_webhook_signature(b"mysecret", b"payload", "sha256=zz"));
}

#[test]
fn app_settings() {
    assert_eq!(parse_app_id_setting(None).unwrap(), None);
    assert_eq!(parse_app_id_setting(Some("  ")).unwrap(), None);
    assert_eq!(parse_app_id_setting(Some(" 12345 ")).unwrap(), Some(12345));
    assert!(matches!(parse_app_id_setting(Some("abc")), Err(GithubAppError::InvalidAppId)));
    assert_eq!(parse_u64("18446744073709551615"), Some(u64::MAX));
    assert_eq!(parse_u64("18446744073709551616"), None);
    assert_eq!(parse_u64("+7"), Some(7));
    assert_eq!(pem_from_inline("a\\nb"), Some("a\nb".to_string()));
    assert_eq!(pem_from_inline("   "), None);
    assert_eq!(github_app_slug(Some(" my-app ")), Some("my-app".to_string()));
    assert_eq!(next_repositories_page(1, 100), Some(2));
    assert_eq!(next_repositories_page(1, 99), None);
    assert_eq!(next_repositories_page(50, 100), None);
    assert_eq!(GithubAppError::Api("x".into()).to_string(), "GitHub API error: x");
}

#[test]
fn app_credentials_and_install_url() {
    let creds = GithubAppCredentials::new(12345, "pem".into());
    assert_eq!(creds.app_id(), 12345);
    assert_eq!(creds.private_key_pem(), "pem");
    assert_eq!(
        GithubAppCredentials::installations_new_url("my app", "molt-hub"),
        "https://github.com/apps/my%20app/installations/new?state=molt-hub"
    );
    assert_eq!(urlencoding_encode("é~"), "%C3%A9~");
}

// ── OAuth tokens ────────────────────────────────────────────────────────────

#[test]
fn oauth_error_to_http_maps_http_error() {
    let (status, msg) = oauth_error_to_http(&OAuthError::ParseError("bad json".into()));
    assert_eq!(status, 500);
    assert!(msg.contains("bad json"));
}

#[test]
fn oauth_error_to_http_maps_auth_server_error() {
    let e = OAuthError::AuthServerError { error: "invalid_grant".into(), description: "Code expired".into() };
    assert_eq!(oauth_error_to_http(&e).0, 401);
    assert_eq!(e.to_string(), "OAuth error (invalid_grant): Code expired");
}

#[test]
fn jira_oauth_error_to_http_maps_parse_error() {
    let (status, msg) = oauth_error_to_http(&OAuthError::ParseError("bad json".into()));
    assert_eq!(status, 500);
    assert!(msg.contains("bad json"));
}

#[test]
fn jira_oauth_error_to_http_maps_auth_server_error() {
    let e = OAuthError::AuthServerError { error: "invalid_grant".into(), description: "Code expired".into() };
    assert_eq!(oauth_error_to_http(&e).0, 401);
}

#[test]
fn jira_oauth_error_to_http_maps_missing_secret() {
    assert_eq!(oauth_error_to_http(&OAuthError::MissingClientSecret).0, 428);
}

#[test]
fn github_oauth_error_to_http_maps_parse_error() {
    let (status, msg) = oauth_error_to_http(&OAuthError::ParseError("bad json".into()));
    assert_eq!(status, 500);
    assert!(msg.contains("bad json"));
}

#[test]
fn github_oauth_error_to_http_maps_auth_server_error() {
    let e = OAuthError::AuthServerError { error: "bad_verification_code".into(), description: "expired".into() };
    assert_eq!(oauth_error_to_http(&e).0, 401);
}

#[test]
fn github_oauth_error_to_http_maps_missing_secret() {
    assert_eq!(oauth_error_to_http(&OAuthError::MissingClientSecret).0, 428);
}

#[test]
fn token_parse_failure_prefers_provider_error() {
    assert!(matches!(
        token_parse_failure(Some(("bad_code".into(), "d".into())), "p".into()),
        OAuthError::AuthServerError { .. }
    ));
    assert!(matches!(token_parse_failure(Some(("".into(), "d".into())), "p".into()), OAuthError::ParseError(_)));
}

fn gh_tokens(refresh: Option<&str>, login: Option<&str>) -> GithubStoredTokens {
    GithubStoredTokens {
        access_token: "ghp_test123".into(),
        refresh_token: refresh.map(String::from),
        expires_in: Some(3600),
        scope: "repo".into(),
        login: login.map(String::from),
    }
}

#[test]
fn github_tokens_survive_restart() {
    let mut store = MemoryStore::new();
    let scope = CredentialScope::Global;
    gh_tokens(Some("r1"), Some("octo")).persist(&mut store, &scope);
    let loaded = GithubStoredTokens::load(&store, &scope).unwrap();
    assert_eq!(loaded.access_token, "ghp_test123");
    assert_eq!(loaded.refresh_token.as_deref(), Some("r1"));
    assert_eq!(loaded.scope, "repo");
    assert_eq!(loaded.login.as_deref(), Some("octo"));
    assert_eq!(loaded.expires_in, None);
    forget_github_tokens(&mut store, &scope);
    assert!(GithubStoredTokens::load(&store, &scope).is_none());
}

#[test]
fn github_status_reports_connection() {
    let t = gh_tokens(None, Some("octo"));
    let s = github_status_response(Some(&t), None);
    assert!(s.connected);
    assert_eq!(s.owner.as_deref(), Some("octo"));
    let s = github_status_response(None, Some("u".into()));
    assert!(!s.connected);
    assert_eq!(s.scope, None);
    let creds = GithubAppCredentials::new(1, "k".into());
    assert_eq!(
        github_install_url(Some(&creds), Some("app")),
        Some("https://github.com/apps/app/installations/new?state=molt-hub".into())
    );
    assert_eq!(github_install_url(None, Some("app")), None);
}

#[test]
fn jira_tokens_survive_restart() {
    let mut store = MemoryStore::new();
    let scope = CredentialScope::Pipeline("ci".into());
    let t = jira_tokens_after_callback(
        JiraTokenResponse { access_token: "a".into(), refresh_token: Some("r".into()), expires_in: 3600, scope: "s".into() },
        Some(&vec![CloudResource { id: "cid".into(), name: "Site".into(), url: "https://site".into() }]),
    );
    t.persist(&mut store, &scope);
    let loaded = JiraStoredTokens::load(&store, &scope).unwrap();
    assert_eq!(loaded.cloud_id.as_deref(), Some("cid"));
    assert_eq!(loaded.site_url.as_deref(), Some("https://site"));
    assert_eq!(loaded.expires_in, 0);
    let status = jira_status_response(Some(&loaded));
    assert!(status.connected);
    assert_eq!(status.site_name.as_deref(), Some("Site"));
    forget_jira_tokens(&mut store, &scope);
    assert!(JiraStoredTokens::load(&store, &scope).is_none());
    assert!(!jira_status_response(None).connected);
}

#[test]
fn jira_scopes() {
    assert_eq!(jira_authorization_scopes(&vec![]).len(), 6);
    assert_eq!(jira_authorization_scopes(&vec!["x".into()]), vec!["x"]);
    assert_eq!(join_scopes(Some(&vec!["a".into(), "b".into()])), "a b");
    assert_eq!(join_scopes(None), "");
}

// ── Jira ────────────────────────────────────────────────────────────────────

fn raw(key: &str, self_url: &str, description: Option<JsonValue>, priority: Option<&str>, labels: Option<Vec<String>>) -> IssueRaw {
    IssueRaw {
        key: key.into(),
        self_url: self_url.into(),
        fields: IssueFields {
            summary: "Test issue".into(),
            description,
            status: StatusField { name: "To Do".into() },
            priority: priority.map(|p| PriorityField { name: p.into() }),
            labels,
        },
    }
}

#[test]
fn jira_client_from_oauth_builds_correct_base_url() {
    let client = JiraClient::from_oauth("my-cloud-id", "access-token-123");
    assert_eq!(client.base_url, "https://api.atlassian.com/ex/jira/my-cloud-id/rest/api/3");
}

#[test]
fn jira_client_from_oauth_stores_access_token() {
    let client = JiraClient::from_oauth("cloud-id", "my-bearer-token");
    assert_eq!(client.access_token, "my-bearer-token");
}

#[test]
fn jira_client_uses_bearer_auth_not_basic() {
    let client = JiraClient::from_oauth("cloud-id", "token-xyz");
    assert_eq!(client.access_token, "token-xyz");
}

#[test]
fn raw_to_issue_derives_browser_url() {
    let issue = raw_to_issue(raw(
        "PROJ-1",
        "https://org.atlassian.net/rest/api/3/issue/PROJ-1",
        None,
        Some("High"),
        Some(vec!["bug".into()]),
    ));
    assert_eq!(issue.key, "PROJ-1");
    assert_eq!(issue.summary, "Test issue");
    assert_eq!(issue.url, "https://org.atlassian.net/browse/PROJ-1");
    assert_eq!(issue.status, "To Do");
    assert_eq!(issue.priority, Some("High".into()));
    assert_eq!(issue.labels, vec!["bug"]);
}

#[test]
fn raw_to_issue_cloud_api_url() {
    let issue = raw_to_issue(raw(
        "PROJ-42",
        "https://api.atlassian.com/ex/jira/cloud-id/rest/api/3/issue/PROJ-42",
        None,
        None,
        None,
    ));
    assert_eq!(issue.key, "PROJ-42");
    assert!(issue.url.ends_with("/browse/PROJ-42"));
    assert!(issue.labels.is_empty());
}

#[test]
fn raw_to_issue_plain_description() {
    let issue = raw_to_issue(raw(
        "PROJ-2",
        "https://org.atlassian.net/rest/api/3/issue/PROJ-2",
        Some(JsonValue::String("plain text description".into())),
        None,
        None,
    ));
    assert_eq!(issue.description, Some("plain text description".into()));
}

#[test]
fn raw_to_issue_keeps_url_without_rest_path() {
    let issue = raw_to_issue(raw("K-1", "https://elsewhere/K-1", None, None, None));
    assert_eq!(issue.url, "https://elsewhere/K-1");
}

fn obj(members: Vec<(&str, JsonValue)>) -> JsonValue {
    JsonValue::Object(members.into_iter().map(|(k, v)| (k.to_string(), v)).collect())
}

#[test]
fn extract_plain_text_from_adf_doc() {
    let adf = obj(vec![
        ("version", JsonValue::Number("1".into())),
        ("type", JsonValue::String("doc".into())),
        (
            "content",
            JsonValue::Array(vec![obj(vec![
                ("type", JsonValue::String("paragraph".into())),
                (
                    "content",
                    JsonValue::Array(vec![
                        obj(vec![("type", JsonValue::String("text".into())), ("text", JsonValue::String("Hello ".into()))]),
                        obj(vec![("type", JsonValue::String("text".into())), ("text", JsonValue::String("world".into()))]),
                    ]),
                ),
            ])]),
        ),
    ]);
    assert_eq!(extract_plain_text(&adf), "Hello world");
}

#[test]
fn extract_plain_text_of_arrays_and_others() {
    let v = JsonValue::Array(vec![JsonValue::String("a".into()), JsonValue::Null, JsonValue::String("b".into())]);
    assert_eq!(extract_plain_text(&v), "a  b");
    assert_eq!(extract_plain_text(&obj(vec![("text", JsonValue::Number("3".into()))])), "");
    assert_eq!(extract_plain_text(&JsonValue::Bool(true)), "");
}

#[test]
fn jira_error_display() {
    assert!(JiraError::NotFound { key: "PROJ-99".into() }.to_string().contains("PROJ-99"));
    assert!(JiraError::AuthError { status: 401 }.to_string().contains("401"));
}

#[test]
fn summarize_jira_error_extracts_error_messages() {
    let body = r#"{"errorMessages":["Expected operator but got 0."],"errors":{}}"#;
    let env = JiraErrorEnvelope { error_messages: vec!["Expected operator but got 0.".into()], errors: vec![] };
    assert_eq!(summarize_jira_error_response(Some(&env), body), "Expected operator but got 0.");
}

#[test]
fn summarize_jira_error_joins_errors_map() {
    let body = r#"{"errorMessages":[],"errors":{"jql":"invalid"}}"#;
    let env = JiraErrorEnvelope { error_messages: vec![], errors: vec![("jql".into(), "invalid".into())] };
    assert_eq!(summarize_jira_error_response(Some(&env), body), "jql: invalid");
}

#[test]
fn summarize_jira_error_falls_back_to_body() {
    assert_eq!(summarize_jira_error_response(None, "   "), "(empty response body)");
    assert_eq!(summarize_jira_error_response(None, " oops "), "oops");
    let long = "x".repeat(450);
    let s = summarize_jira_error_response(None, &long);
    assert_eq!(s, format!("{}…", "x".repeat(400)));
}

#[test]
fn jira_error_to_http_maps_auth_error() {
    assert_eq!(jira_error_to_http(&JiraError::AuthError { status: 401 }).0, 401);
}

#[test]
fn jira_error_to_http_maps_not_found() {
    assert_eq!(jira_error_to_http(&JiraError::NotFound { key: "PROJ-1".into() }).0, 404);
}

#[test]
fn jira_error_to_http_maps_parse_error() {
    assert_eq!(jira_error_to_http(&JiraError::ParseError("bad json".into())).0, 500);
}

#[test]
fn jira_error_to_http_maps_api_error_client_status() {
    let (status, msg) = jira_error_to_http(&JiraError::ApiError { status: 400, message: "Invalid JQL".into() });
    assert_eq!(status, 400);
    assert_eq!(msg, "Invalid JQL");
}

#[test]
fn map_priority_maps_correctly() {
    assert_eq!(map_priority(Some("Highest")), Priority::P0);
    assert_eq!(map_priority(Some("Critical")), Priority::P0);
    assert_eq!(map_priority(Some("Blocker")), Priority::P0);
    assert_eq!(map_priority(Some("High")), Priority::P1);
    assert_eq!(map_priority(Some("Medium")), Priority::P2);
    assert_eq!(map_priority(Some("Low")), Priority::P3);
    assert_eq!(map_priority(Some("Lowest")), Priority::P3);
    assert_eq!(map_priority(Some("Minor")), Priority::P3);
    assert_eq!(map_priority(None), Priority::P2);
    assert_eq!(map_priority(Some("Unknown")), Priority::P2);
}

#[test]
fn import_stage_defaults() {
    assert_eq!(import_stage_of("  "), "backlog");
    assert_eq!(import_stage_of(" todo "), "todo");
    assert_eq!(requested_import_stage(None), "backlog");
    assert_eq!(requested_import_stage(Some(" doing ")), "doing");
    assert_eq!(select_cloud_id(None, Some("stored")), Some("stored".into()));
    assert_eq!(select_cloud_id(Some("req"), Some("stored")), Some("req".into()));
    assert_eq!(select_cloud_id(None, None), None);
    let e = ImportError::IssueFailed { key: "K".into(), reason: "r".into() };
    assert_eq!(e.to_string(), "failed to import issue K: r");
}

#[test]
fn jira_oauth_handlers_callback_rejects_unknown_state() {
    let mut pending = PendingAuthorizations::new();
    pending.remember("known-state".into(), "verifier123".into(), CredentialScope::Global);
    assert_eq!(pending.take("unknown-state").unwrap_err(), UnknownState);
    assert!(pending.contains("known-state"));
    assert_eq!(pending.len(), 1);
    assert_eq!(
        UnknownState.message(),
        "Unknown or already-used state token. Please restart the OAuth flow."
    );
}

#[test]
fn state_token_is_consumed_by_its_callback() {
    let mut pending = PendingAuthorizations::new();
    pending.remember("s1".into(), "v1".into(), CredentialScope::Pipeline("p".into()));
    pending.remember("s2".into(), "v2".into(), CredentialScope::Global);
    let (verifier, scope) = pending.take("s1").unwrap();
    assert_eq!(verifier, "v1");
    assert_eq!(scope, CredentialScope::Pipeline("p".into()));
    assert_eq!(pending.take("s1").unwrap_err(), UnknownState);
    assert!(pending.contains("s2"));
    assert!(!pending.contains("s1"));
}

#[test]
fn request_types_resolve_their_parameters() {
    let q = IssuesQuery {
        owner: "o".into(),
        repo: "r".into(),
        state: "closed".into(),
        labels: "bug, ui".into(),
        project_id: None,
    };
    assert_eq!(q.search_q(), "is:closed label:bug label:ui");
    let req = ImportRequest { issue_keys: vec!["P-1".into()], cloud_id: None, project_id: None, initial_stage: Some(" ".into()) };
    assert_eq!(req.stage(), "backlog");
    let req = ImportRequest { issue_keys: vec![], cloud_id: None, project_id: None, initial_stage: Some(" todo ".into()) };
    assert_eq!(req.stage(), "todo");
    assert_eq!(ProjectIdQuery { project_id: Some("default".into()) }.credential_scope(), CredentialScope::Global);
    assert_eq!(ProjectIdQuery { project_id: None }.credential_scope(), CredentialScope::Global);
    let id = "01ARZ3NDEKTSV4RRFFQ69G5FAV";
    match (ProjectIdQuery { project_id: Some(format!(" {id} ")) }).credential_scope() {
        CredentialScope::Project(p) => assert_eq!(p.0, ulid::Ulid::from_string(id).unwrap().0),
        other => panic!("unexpected scope {other:?}"),
    }
}

#[test]
fn github_client_new_sets_base_url() {
    let client = GitHubClient::new("ghp_test123".into());
    assert_eq!(client.base_url, "https://api.github.com");
    assert_eq!(client.token, "ghp_test123");
    assert_eq!(client.token(), "ghp_test123");
}

#[test]
fn github_client_with_base_url() {
    let client = GitHubClient::with_base_url("tok".into(), "http://localhost:9999".into());
    assert_eq!(client.base_url, "http://localhost:9999");
    assert_eq!(client.issue_url("o", "r", 42), "http://localhost:9999/repos/o/r/issues/42");
    assert_eq!(client.search_url(), "http://localhost:9999/search/issues");
    assert_eq!(client.repos_url(), "http://localhost:9999/user/repos");
    assert_eq!(client.user_url(), "http://localhost:9999/user");
}

#[test]
fn extract_github_api_message_reads_json_message() {
    assert_eq!(github_api_message(Some("Validation Failed"), "{\"message\":\"Validation Failed\"}"), "Validation Failed");
    assert_eq!(github_api_message(Some(""), "  plain text  "), "plain text");
    assert_eq!(github_api_message(None, "  oops "), "oops");
    let long = "x".repeat(250);
    assert_eq!(github_api_message(None, &long).len(), 200);
}

#[test]
fn github_response_status_checks() {
    assert!(matches!(check_auth(401), Err(GitHubError::AuthError { status: 401 })));
    assert!(matches!(check_auth(403), Err(GitHubError::AuthError { status: 403 })));
    assert!(check_auth(200).is_ok());
    assert!(check_auth(404).is_ok());
    assert!(api_error(200, None, "").is_none());
    match api_error(422, Some("Validation Failed"), "{}") {
        Some(GitHubError::ApiError { status, message }) => {
            assert_eq!(status, 422);
            assert_eq!(message, "Validation Failed");
        }
        other => panic!("unexpected {other:?}"),
    }
    match issue_not_found("o", "r", 7) {
        GitHubError::NotFound { repo, number } => {
            assert_eq!(repo, "o/r");
            assert_eq!(number, 7);
        }
        other => panic!("unexpected {other:?}"),
    }
    assert_eq!(repo_search_query("o", "r", "is:open"), "repo:o/r is:open");
}

#[test]
fn jira_client_endpoints_and_response_errors() {
    let c = JiraClient::from_oauth("cloud-1", "tok");
    assert_eq!(c.search_url(), "https://api.atlassian.com/ex/jira/cloud-1/rest/api/3/search");
    assert_eq!(c.issue_url("P-1"), "https://api.atlassian.com/ex/jira/cloud-1/rest/api/3/issue/P-1");
    assert_eq!(c.projects_url(), "https://api.atlassian.com/ex/jira/cloud-1/rest/api/3/project");
    assert!(matches!(jira_response_error(401, None, ""), Some(JiraError::AuthError { status: 401 })));
    assert!(jira_response_error(200, None, "[]").is_none());
    match jira_response_error(500, None, "  boom  ") {
        Some(JiraError::ApiError { status, message }) => {
            assert_eq!(status, 500);
            assert_eq!(message, "boom");
        }
        other => panic!("unexpected {other:?}"),
    }
    match jira_issue_response_error(404, "P-9", None, "") {
        Some(JiraError::NotFound { key }) => assert_eq!(key, "P-9"),
        other => panic!("unexpected {other:?}"),
    }
    assert!(matches!(jira_issue_response_error(403, "P-9", None, ""), Some(JiraError::AuthError { status: 403 })));
    let env = JiraErrorEnvelope { error_messages: vec!["Bad JQL".into()], errors: vec![] };
    match jira_issue_response_error(400, "P-9", Some(&env), "{}") {
        Some(JiraError::ApiError { message, .. }) => assert_eq!(message, "Bad JQL"),
        other => panic!("unexpected {other:?}"),
    }
}

#[test]
fn accessible_resources_failure_carries_status_and_body() {
    use_accessible(molt_hub_server::integrations::oauth_tokens::accessible_resources_error(
        401,
        "denied".to_string(),
    ));
    assert!(molt_hub_server::integrations::oauth_tokens::accessible_resources_error(200, String::new()).is_none());
}

fn use_accessible(e: Option<OAuthError>) {
    match e {
        Some(OAuthError::AuthServerError { error, description }) => {
            assert_eq!(error, "HTTP 401");
            assert_eq!(description, "denied");
        }
        other => panic!("unexpected {other:?}"),
    }
}

#[test]
fn refresh_updates_tokens_and_keeps_sites() {
    let site = CloudResource { id: "c1".into(), name: "org".into(), url: "https://org.atlassian.net".into() };
    let first = JiraTokenResponse {
        access_token: "a1".into(),
        refresh_token: Some("r1".into()),
        expires_in: 3600,
        scope: "read:jira-work".into(),
    };
    let mut stored = Some(stored_after_callback(first, vec![site]));
    assert_eq!(refresh_token_to_use(&stored).unwrap(), "r1");
    let fresh = JiraTokenResponse {
        access_token: "a2".into(),
        refresh_token: None,
        expires_in: 60,
        scope: "s2".into(),
    };
    apply_refresh(&mut stored, fresh);
    let t = stored.as_ref().unwrap();
    assert_eq!(t.access_token, "a2");
    assert_eq!(t.refresh_token.as_deref(), Some("r1"));
    assert_eq!(t.expires_in, 60);
    assert_eq!(t.scope, "s2");
    assert_eq!(t.sites.len(), 1);
    assert_eq!(t.sites[0].id, "c1");
    let mut none: Option<molt_hub_server::integrations::oauth_tokens::StoredTokens> = None;
    assert_eq!(refresh_token_to_use(&none).unwrap_err(), NoRefreshToken);
    assert_eq!(NoRefreshToken.message(), "No refresh token stored. Please re-authorize.");
    apply_refresh(
        &mut none,
        JiraTokenResponse { access_token: "x".into(), refresh_token: None, expires_in: 0, scope: String::new() },
    );
    assert!(none.is_none());
}

#[test]
fn github_oauth_handlers_callback_rejects_unknown_state() {
    let mut pending = PendingAuthorizations::new();
    pending.remember("known-state".into(), "verifier123".into(), CredentialScope::Global);
    assert_eq!(pending.take("unknown-state").unwrap_err(), UnknownState);
    assert!(pending.contains("known-state"));
}

#[test]
fn pkce_verifier_consumed_by_unknown_state() {
    let mut pending = PendingAuthorizations::new();
    pending.remember("known-state".into(), "verifier123".into(), CredentialScope::Global);
    assert!(pending.take("unknown-state").is_err());
    assert!(pending.contains("known-state"));
}

#[test]
fn import_note_is_the_issue_as_json() {
    let issue = molt_hub_server::integrations::jira::JiraIssue {
        key: "P-1".into(),
        summary: "s".into(),
        description: None,
        status: "To Do".into(),
        priority: None,
        labels: vec!["a".into(), "b\"q".into()],
        url: "https://x/browse/P-1".into(),
    };
    let note = molt_hub_server::integrations::jira::import_note(&issue);
    assert_eq!(
        molt_hub_server::integrations::json::to_json_text(&note),
        r#"{"jira_key":"P-1","jira_status":"To Do","jira_url":"https://x/browse/P-1","labels":["a","b\"q"],"source":"jira"}"#
    );
}

#[test]
fn clients_file_is_read_once() {
    let mut cache = molt_hub_server::integrations::oauth_clients::OAuthClientsCache::new();
    assert!(cache.needs_load());
    let (id, secret) = cache.github_credentials();
    assert_eq!(id, "Iv23lip4ZuqkEmT9Z2U0");
    assert_eq!(secret, None);
    let mut first = molt_hub_server::integrations::oauth_clients::OAuthClientsFile::default();
    first.github.client_id = Some("gh_id".into());
    first.github.client_secret = Some("gh_sec".into());
    cache.fill(Some(first));
    assert!(!cache.needs_load());
    let mut later = molt_hub_server::integrations::oauth_clients::OAuthClientsFile::default();
    later.github.client_id = Some("other".into());
    cache.fill(Some(later));
    assert_eq!(cache.github_credentials(), ("gh_id".to_string(), Some("gh_sec".to_string())));
    assert_eq!(cache.jira_credentials().0, "3yQWy34WyjCn0wtOfawofBTMmtK3gUgs");
}
