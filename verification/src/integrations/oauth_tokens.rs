//! OAuth errors, and the tokens each provider keeps per credential scope:
//! what a successful callback writes to the credential store, what is read
//! back when no tokens are cached (so connections survive a restart), what
//! disconnecting removes, and the status the UI is shown.

use vstd::prelude::*;

use super::github_app::GithubAppCredentials;
use crate::credentials::memory_store::{lookup, MemoryStore};
use crate::credentials::scope::{key_text, CredentialScope};
use crate::text::{concat2, decimal, push_str, string_from_literal, u64_to_string};

verus! {

/// Errors of the OAuth flows; a transport failure carries the HTTP
/// client's message.
#[derive(Debug, Clone)]
pub enum OAuthError {
    HttpError(String),
    AuthServerError { error: String, description: String },
    ParseError(String),
    MissingClientSecret,
}

/// Display text of an [`OAuthError`].
pub open spec fn oauth_error_text(e: OAuthError) -> Seq<char> {
    match e {
        OAuthError::HttpError(m) => "HTTP error: "@ + m@,
        OAuthError::AuthServerError { error, description } => "OAuth error ("@ + error@ + "): "@
            + description@,
        OAuthError::ParseError(m) => "parse error: "@ + m@,
        OAuthError::MissingClientSecret => "client secret not configured — set it via settings"@,
    }
}

impl OAuthError {
    /// Display text of the error.
    pub fn to_string(&self) -> (s: String)
        ensures
            s@ == oauth_error_text(*self),
    {
        match self {
            OAuthError::HttpError(m) => concat2("HTTP error: ", m.as_str()),
            OAuthError::AuthServerError { error, description } => {
                let mut s = concat2("OAuth error (", error.as_str());
                push_str(&mut s, "): ");
                push_str(&mut s, description.as_str());
                s
            },
            OAuthError::ParseError(m) => concat2("parse error: ", m.as_str()),
            OAuthError::MissingClientSecret => string_from_literal(
                "client secret not configured — set it via settings",
            ),
        }
    }
}

/// HTTP status for an OAuth error: 502 for transport failures, 401 when the
/// authorization server refused, 500 for unreadable answers, 428 when no
/// client secret is configured.
pub open spec fn oauth_error_status(e: OAuthError) -> u16 {
    match e {
        OAuthError::HttpError(_) => 502,
        OAuthError::AuthServerError { .. } => 401,
        OAuthError::ParseError(_) => 500,
        OAuthError::MissingClientSecret => 428,
    }
}

/// Status and message a handler answers with for an OAuth error.
pub fn oauth_error_to_http(e: &OAuthError) -> (r: (u16, String))
    ensures
        r.0 == oauth_error_status(*e),
        r.1@ == oauth_error_text(*e),
{
    let code: u16 = match e {
        OAuthError::HttpError(_) => 502,
        OAuthError::AuthServerError { .. } => 401,
        OAuthError::ParseError(_) => 500,
        OAuthError::MissingClientSecret => 428,
    };
    (code, e.to_string())
}

/// The error a response of the accessible-resources endpoint means: a
/// status outside 200..=299 is an `AuthServerError` with `HTTP {status}`
/// and the body as description; a success none.
pub fn accessible_resources_error(status: u16, body: String) -> (r: Option<OAuthError>)
    ensures
        (200 <= status && status <= 299) ==> r is None,
        !(200 <= status && status <= 299) ==> (r matches Some(
            OAuthError::AuthServerError { error, description },
        ) && error@ == "HTTP "@ + decimal(status as nat) && description == body),
{
    if 200 <= status && status <= 299 {
        None
    } else {
        let d = u64_to_string(status as u64);
        Some(OAuthError::AuthServerError { error: concat2("HTTP ", d.as_str()), description: body })
    }
}

/// The error a token exchange reports when its answer could not be read as
/// a token response: the provider's own `error` and `error_description`
/// when the body carries a non-empty `error`, else a parse error.
pub fn token_parse_failure(body_error: Option<(String, String)>, parse_message: String) -> (e: OAuthError)
    ensures
        match body_error {
            Some(p) => if p.0@.len() > 0 {
                e matches OAuthError::AuthServerError { error, description } && error@ == p.0@
                    && description@ == p.1@
            } else {
                e matches OAuthError::ParseError(m) && m@ == parse_message@
            },
            None => e matches OAuthError::ParseError(m) && m@ == parse_message@,
        },
{
    match body_error {
        Some((error, description)) => {
            if !error.as_str().is_empty() {
                OAuthError::AuthServerError { error, description }
            } else {
                OAuthError::ParseError(parse_message)
            }
        },
        None => OAuthError::ParseError(parse_message),
    }
}

/// Credential-store alias of the GitHub access token.
pub const GITHUB_KEY_ACCESS_TOKEN: &'static str = "github/access_token";

/// Credential-store alias of the GitHub refresh token.
pub const GITHUB_KEY_REFRESH_TOKEN: &'static str = "github/refresh_token";

/// Credential-store alias of the granted GitHub scopes.
pub const GITHUB_KEY_SCOPE: &'static str = "github/scope";

/// Credential-store alias of the GitHub login.
pub const GITHUB_KEY_LOGIN: &'static str = "github/login";

/// Tokens kept after a successful GitHub OAuth exchange.
#[derive(Debug, Clone)]
pub struct GithubStoredTokens {
    pub access_token: String,
    pub refresh_token: Option<String>,
    pub expires_in: Option<u64>,
    pub scope: String,
    /// GitHub login, used as the default `owner` in repository calls.
    pub login: Option<String>,
}

/// The view of an optional string.
pub open spec fn opt_text(o: Option<String>) -> Option<Seq<char>> {
    match o {
        Some(s) => Some(s@),
        None => None,
    }
}

/// `o`, or `None` when it is empty text.
pub open spec fn nonempty(o: Option<Seq<char>>) -> Option<Seq<char>> {
    match o {
        Some(s) => if s.len() > 0 {
            Some(s)
        } else {
            None
        },
        None => None,
    }
}

/// `m` after `value` (when present) is written under `alias` in `scope`.
pub open spec fn write_opt(
    m: Map<Seq<char>, Seq<char>>,
    alias: Seq<char>,
    scope: CredentialScope,
    value: Option<Seq<char>>,
) -> Map<Seq<char>, Seq<char>> {
    match value {
        Some(v) => m.insert(key_text(alias, scope), v),
        None => m,
    }
}

/// The store's entries after GitHub tokens are persisted: access token,
/// refresh token when present, scopes, login when present.
pub open spec fn github_persisted(
    m: Map<Seq<char>, Seq<char>>,
    scope: CredentialScope,
    t: GithubStoredTokens,
) -> Map<Seq<char>, Seq<char>> {
    let m1 = m.insert(key_text(GITHUB_KEY_ACCESS_TOKEN@, scope), t.access_token@);
    let m2 = write_opt(m1, GITHUB_KEY_REFRESH_TOKEN@, scope, opt_text(t.refresh_token));
    let m3 = m2.insert(key_text(GITHUB_KEY_SCOPE@, scope), t.scope@);
    write_opt(m3, GITHUB_KEY_LOGIN@, scope, opt_text(t.login))
}

/// GitHub tokens read back from stored entries, as (access token, refresh
/// token, scopes, login): none without an access token; scopes default to
/// empty; an empty login counts as none.
pub open spec fn github_loaded(m: Map<Seq<char>, Seq<char>>, scope: CredentialScope) -> Option<
    (Seq<char>, Option<Seq<char>>, Seq<char>, Option<Seq<char>>),
> {
    match lookup(m, GITHUB_KEY_ACCESS_TOKEN@, scope) {
        Some(a) => Some(
            (
                a,
                lookup(m, GITHUB_KEY_REFRESH_TOKEN@, scope),
                match lookup(m, GITHUB_KEY_SCOPE@, scope) {
                    Some(s) => s,
                    None => Seq::empty(),
                },
                nonempty(lookup(m, GITHUB_KEY_LOGIN@, scope)),
            ),
        ),
        None => None,
    }
}

/// The store's entries after a GitHub disconnect: all four entries removed.
pub open spec fn github_forgotten(m: Map<Seq<char>, Seq<char>>, scope: CredentialScope) -> Map<
    Seq<char>,
    Seq<char>,
> {
    m.remove(key_text(GITHUB_KEY_ACCESS_TOKEN@, scope)).remove(
        key_text(GITHUB_KEY_REFRESH_TOKEN@, scope),
    ).remove(key_text(GITHUB_KEY_SCOPE@, scope)).remove(key_text(GITHUB_KEY_LOGIN@, scope))
}

fn store_opt(store: &mut MemoryStore, alias: &str, scope: &CredentialScope, value: &Option<String>)
    requires
        alias@.len() > 0,
    ensures
        final(store)@ == write_opt(old(store)@, alias@, *scope, opt_text(*value)),
{
    match value {
        Some(v) => {
            let _ = store.store(alias, scope, v.as_str());
        },
        None => {},
    }
}

fn read_opt(store: &MemoryStore, alias: &str, scope: &CredentialScope) -> (r: Option<String>)
    ensures
        opt_text(r) == lookup(store@, alias@, *scope),
{
    match store.retrieve(alias, scope) {
        Ok(v) => Some(v),
        Err(_) => None,
    }
}

impl GithubStoredTokens {
    /// Persist the tokens of `scope` (best effort, as after a callback).
    pub fn persist(&self, store: &mut MemoryStore, scope: &CredentialScope)
        ensures
            final(store)@ == github_persisted(old(store)@, *scope, *self),
    {
        proof {
            reveal_strlit("github/access_token");
            reveal_strlit("github/refresh_token");
            reveal_strlit("github/scope");
            reveal_strlit("github/login");
        }
        let _ = store.store(GITHUB_KEY_ACCESS_TOKEN, scope, self.access_token.as_str());
        store_opt(store, GITHUB_KEY_REFRESH_TOKEN, scope, &self.refresh_token);
        let _ = store.store(GITHUB_KEY_SCOPE, scope, self.scope.as_str());
        store_opt(store, GITHUB_KEY_LOGIN, scope, &self.login);
    }

    /// Tokens of `scope` read back from the store; `None` when no access
    /// token is stored. The expiry is not persisted.
    pub fn load(store: &MemoryStore, scope: &CredentialScope) -> (r: Option<Self>)
        ensures
            match github_loaded(store@, *scope) {
                Some(v) => r is Some && r->0.access_token@ == v.0 && opt_text(r->0.refresh_token)
                    == v.1 && r->0.scope@ == v.2 && opt_text(r->0.login) == v.3
                    && r->0.expires_in is None,
                None => r is None,
            },
    {
        let access = read_opt(store, GITHUB_KEY_ACCESS_TOKEN, scope);
        match access {
            None => None,
            Some(access_token) => {
                let refresh_token = read_opt(store, GITHUB_KEY_REFRESH_TOKEN, scope);
                let scope_text = match read_opt(store, GITHUB_KEY_SCOPE, scope) {
                    Some(s) => s,
                    None => String::new(),
                };
                let login = match read_opt(store, GITHUB_KEY_LOGIN, scope) {
                    Some(l) => if l.as_str().is_empty() {
                        None
                    } else {
                        Some(l)
                    },
                    None => None,
                };
                Some(
                    GithubStoredTokens {
                        access_token,
                        refresh_token,
                        expires_in: None,
                        scope: scope_text,
                        login,
                    },
                )
            },
        }
    }
}

/// Remove every GitHub credential of `scope` from the store.
pub fn forget_github_tokens(store: &mut MemoryStore, scope: &CredentialScope)
    ensures
        final(store)@ == github_forgotten(old(store)@, *scope),
{
    let _ = store.delete(GITHUB_KEY_ACCESS_TOKEN, scope);
    let _ = store.delete(GITHUB_KEY_REFRESH_TOKEN, scope);
    let _ = store.delete(GITHUB_KEY_SCOPE, scope);
    let _ = store.delete(GITHUB_KEY_LOGIN, scope);
}

/// Credentials under different aliases of one scope have different keys.
pub proof fn lemma_distinct_aliases(a: Seq<char>, b: Seq<char>, scope: CredentialScope)
    requires
        a != b,
    ensures
        key_text(a, scope) != key_text(b, scope),
{
    let p = "molt-hub:"@ + crate::credentials::scope::scope_text(scope) + ":"@;
    assert(key_text(a, scope) == p + a);
    assert(key_text(b, scope) == p + b);
    if p + a == p + b {
        assert((p + a).subrange(p.len() as int, (p + a).len() as int) == a);
        assert((p + b).subrange(p.len() as int, (p + b).len() as int) == b);
    }
}

/// GitHub tokens written after a callback are read back unchanged after a
/// restart (without the expiry, and with an empty login read as none),
/// provided no older refresh token or login of the scope is left behind
/// where the new tokens have none.
pub proof fn law_github_tokens_survive_restart(
    m: Map<Seq<char>, Seq<char>>,
    scope: CredentialScope,
    t: GithubStoredTokens,
)
    requires
        t.refresh_token is None ==> lookup(m, GITHUB_KEY_REFRESH_TOKEN@, scope) is None,
        t.login is None ==> lookup(m, GITHUB_KEY_LOGIN@, scope) is None,
    ensures
        github_loaded(github_persisted(m, scope, t), scope) == Some(
            (t.access_token@, opt_text(t.refresh_token), t.scope@, nonempty(opt_text(t.login))),
        ),
{
    reveal_strlit("github/access_token");
    reveal_strlit("github/refresh_token");
    reveal_strlit("github/scope");
    reveal_strlit("github/login");
    let ka = key_text(GITHUB_KEY_ACCESS_TOKEN@, scope);
    let kr = key_text(GITHUB_KEY_REFRESH_TOKEN@, scope);
    let ks = key_text(GITHUB_KEY_SCOPE@, scope);
    let kl = key_text(GITHUB_KEY_LOGIN@, scope);
    assert(GITHUB_KEY_ACCESS_TOKEN@ != GITHUB_KEY_REFRESH_TOKEN@);
    assert(GITHUB_KEY_ACCESS_TOKEN@ != GITHUB_KEY_SCOPE@);
    assert(GITHUB_KEY_ACCESS_TOKEN@ != GITHUB_KEY_LOGIN@);
    assert(GITHUB_KEY_REFRESH_TOKEN@ != GITHUB_KEY_SCOPE@);
    assert(GITHUB_KEY_REFRESH_TOKEN@ != GITHUB_KEY_LOGIN@);
    assert(GITHUB_KEY_SCOPE@[7] != GITHUB_KEY_LOGIN@[7]);
    assert(GITHUB_KEY_SCOPE@ != GITHUB_KEY_LOGIN@);
    lemma_distinct_aliases(GITHUB_KEY_ACCESS_TOKEN@, GITHUB_KEY_REFRESH_TOKEN@, scope);
    lemma_distinct_aliases(GITHUB_KEY_ACCESS_TOKEN@, GITHUB_KEY_SCOPE@, scope);
    lemma_distinct_aliases(GITHUB_KEY_ACCESS_TOKEN@, GITHUB_KEY_LOGIN@, scope);
    lemma_distinct_aliases(GITHUB_KEY_REFRESH_TOKEN@, GITHUB_KEY_SCOPE@, scope);
    lemma_distinct_aliases(GITHUB_KEY_REFRESH_TOKEN@, GITHUB_KEY_LOGIN@, scope);
    lemma_distinct_aliases(GITHUB_KEY_SCOPE@, GITHUB_KEY_LOGIN@, scope);
    let p = github_persisted(m, scope, t);
    assert(p.dom().contains(ka) && p[ka] == t.access_token@);
    assert(p.dom().contains(ks) && p[ks] == t.scope@);
    assert(lookup(p, GITHUB_KEY_REFRESH_TOKEN@, scope) == opt_text(t.refresh_token));
    assert(lookup(p, GITHUB_KEY_LOGIN@, scope) == opt_text(t.login));
}

/// After a disconnect no GitHub tokens are read back for the scope.
pub proof fn law_github_disconnect_forgets(m: Map<Seq<char>, Seq<char>>, scope: CredentialScope)
    ensures
        github_loaded(github_forgotten(m, scope), scope) is None,
{
    reveal_strlit("github/access_token");
    reveal_strlit("github/refresh_token");
    reveal_strlit("github/scope");
    reveal_strlit("github/login");
    lemma_distinct_aliases(GITHUB_KEY_ACCESS_TOKEN@, GITHUB_KEY_REFRESH_TOKEN@, scope);
    lemma_distinct_aliases(GITHUB_KEY_ACCESS_TOKEN@, GITHUB_KEY_SCOPE@, scope);
    lemma_distinct_aliases(GITHUB_KEY_ACCESS_TOKEN@, GITHUB_KEY_LOGIN@, scope);
}

/// Answer of the GitHub status endpoint.
#[derive(Debug, Clone)]
pub struct GithubStatusResponse {
    pub connected: bool,
    pub scope: Option<String>,
    /// Login of the connected user, for `owner` in repository calls.
    pub owner: Option<String>,
    /// App installation page, when a GitHub App is configured.
    pub app_install_url: Option<String>,
}

/// Status of the GitHub connection: connected with its scopes and login
/// when tokens are held, else not connected with neither.
pub fn github_status_response(tokens: Option<&GithubStoredTokens>, app_install_url: Option<String>) -> (r: GithubStatusResponse)
    ensures
        r.connected == tokens is Some,
        opt_text(r.app_install_url) == opt_text(app_install_url),
        match tokens {
            Some(t) => opt_text(r.scope) == Some(t.scope@) && opt_text(r.owner) == opt_text(
                t.login,
            ),
            None => r.scope is None && r.owner is None,
        },
{
    match tokens {
        Some(t) => GithubStatusResponse {
            connected: true,
            scope: Some(t.scope.clone()),
            owner: match &t.login {
                Some(l) => Some(l.clone()),
                None => None,
            },
            app_install_url,
        },
        None => GithubStatusResponse {
            connected: false,
            scope: None,
            owner: None,
            app_install_url,
        },
    }
}

/// The GitHub App installation page shown with the status: present when an
/// app is configured and has a slug; its state is `molt-hub`.
pub fn github_install_url(app: Option<&GithubAppCredentials>, slug: Option<&str>) -> (r: Option<String>)
    ensures
        r is Some == (app is Some && slug is Some),
        r is Some ==> r->0@ == super::github_app::install_url_text(slug->0@, "molt-hub"@),
{
    match (app, slug) {
        (Some(_), Some(s)) => Some(GithubAppCredentials::installations_new_url(s, "molt-hub")),
        _ => None,
    }
}


/// Tokens returned by the Atlassian token endpoint.
#[derive(Debug, Clone)]
pub struct JiraTokenResponse {
    pub access_token: String,
    pub refresh_token: Option<String>,
    pub expires_in: u64,
    pub scope: String,
}

/// An Atlassian cloud site the token can reach.
#[derive(Debug, Clone)]
pub struct CloudResource {
    pub id: String,
    pub name: String,
    pub url: String,
}

/// Scopes requested when the caller names none.
pub open spec fn default_jira_scopes() -> Seq<Seq<char>> {
    seq![
        "read:jira-work"@,
        "read:jira-user"@,
        "write:jira-work"@,
        "read:sprint:jira-software"@,
        "read:board-scope:jira-software"@,
        "offline_access"@,
    ]
}

/// Scopes of a Jira authorization request: the requested ones, or the
/// default set when none are requested.
pub fn jira_authorization_scopes(requested: &Vec<String>) -> (r: Vec<String>)
    ensures
        requested.len() > 0 ==> r@.map_values(|x: String| x@) == requested@.map_values(
            |x: String| x@,
        ),
        requested.len() == 0 ==> r@.map_values(|x: String| x@) == default_jira_scopes(),
{
    if requested.len() > 0 {
        let mut r: Vec<String> = Vec::new();
        let mut i: usize = 0;
        while i < requested.len()
            invariant
                i <= requested.len(),
                r@.map_values(|x: String| x@) == requested@.take(i as int).map_values(
                    |x: String| x@,
                ),
            decreases requested.len() - i,
        {
            r.push(requested[i].clone());
            i = i + 1;
            assert(requested@.take(i as int).map_values(|x: String| x@) == requested@.take(
                i - 1,
            ).map_values(|x: String| x@).push(requested@[i - 1]@));
        }
        assert(requested@.take(requested.len() as int) == requested@);
        r
    } else {
        let mut r: Vec<String> = Vec::new();
        r.push(string_from_literal("read:jira-work"));
        r.push(string_from_literal("read:jira-user"));
        r.push(string_from_literal("write:jira-work"));
        r.push(string_from_literal("read:sprint:jira-software"));
        r.push(string_from_literal("read:board-scope:jira-software"));
        r.push(string_from_literal("offline_access"));
        assert(r@.map_values(|x: String| x@) =~= default_jira_scopes());
        r
    }
}

/// Granted scopes as one space-separated text, empty when none were reported.
pub open spec fn joined_scopes(scopes: Option<Seq<String>>) -> Seq<char>
    decreases (match scopes {
        Some(v) => v.len(),
        None => 0,
    }),
{
    match scopes {
        Some(v) => if v.len() == 0 {
            Seq::empty()
        } else if v.len() == 1 {
            v[0]@
        } else {
            joined_scopes(Some(v.drop_last())) + seq![' '] + v.last()@
        },
        None => Seq::empty(),
    }
}

/// The scope text recorded for a token response.
pub fn join_scopes(scopes: Option<&Vec<String>>) -> (s: String)
    ensures
        s@ == joined_scopes(
            match scopes {
                Some(v) => Some(v@),
                None => None,
            },
        ),
{
    match scopes {
        None => String::new(),
        Some(v) => {
            let mut s = String::new();
            let mut i: usize = 0;
            while i < v.len()
                invariant
                    i <= v.len(),
                    s@ == joined_scopes(Some(v@.take(i as int))),
                decreases v.len() - i,
            {
                if i > 0 {
                    crate::text::push_char(&mut s, ' ');
                }
                push_str(&mut s, v[i].as_str());
                i = i + 1;
                assert(v@.take(i as int).drop_last() == v@.take(i - 1));
            }
            assert(v@.take(v.len() as int) == v@);
            s
        },
    }
}

/// Credential-store alias of the Jira access token.
pub const JIRA_KEY_ACCESS_TOKEN: &'static str = "jira/access_token";

/// Credential-store alias of the Jira refresh token.
pub const JIRA_KEY_REFRESH_TOKEN: &'static str = "jira/refresh_token";

/// Credential-store alias of the granted Jira scopes.
pub const JIRA_KEY_SCOPE: &'static str = "jira/scope";

/// Credential-store alias of the Jira site URL.
pub const JIRA_KEY_SITE_URL: &'static str = "jira/site_url";

/// Credential-store alias of the Jira site name.
pub const JIRA_KEY_SITE_NAME: &'static str = "jira/site_name";

/// Credential-store alias of the Atlassian cloud id.
pub const JIRA_KEY_CLOUD_ID: &'static str = "jira/cloud_id";

/// Tokens kept after a successful Jira OAuth exchange.
#[derive(Debug, Clone)]
pub struct JiraStoredTokens {
    pub access_token: String,
    pub refresh_token: Option<String>,
    pub expires_in: u64,
    pub scope: String,
    /// Atlassian cloud id used in REST URLs.
    pub cloud_id: Option<String>,
    /// URL of the first accessible site.
    pub site_url: Option<String>,
    /// Name of the first accessible site.
    pub site_name: Option<String>,
}

/// Tokens kept after a Jira callback: the token response, with the id, URL
/// and name of the first accessible site (none when the sites could not be
/// read or there are none).
pub fn jira_tokens_after_callback(tokens: JiraTokenResponse, sites: Option<&Vec<CloudResource>>) -> (t: JiraStoredTokens)
    ensures
        t.access_token@ == tokens.access_token@,
        opt_text(t.refresh_token) == opt_text(tokens.refresh_token),
        t.expires_in == tokens.expires_in,
        t.scope@ == tokens.scope@,
        match sites {
            Some(v) => if v.len() > 0 {
                opt_text(t.cloud_id) == Some(v@[0].id@) && opt_text(t.site_url) == Some(v@[0].url@)
                    && opt_text(t.site_name) == Some(v@[0].name@)
            } else {
                t.cloud_id is None && t.site_url is None && t.site_name is None
            },
            None => t.cloud_id is None && t.site_url is None && t.site_name is None,
        },
{
    let (cloud_id, site_url, site_name) = match sites {
        Some(v) => if v.len() > 0 {
            (Some(v[0].id.clone()), Some(v[0].url.clone()), Some(v[0].name.clone()))
        } else {
            (None, None, None)
        },
        None => (None, None, None),
    };
    JiraStoredTokens {
        access_token: tokens.access_token,
        refresh_token: tokens.refresh_token,
        expires_in: tokens.expires_in,
        scope: tokens.scope,
        cloud_id,
        site_url,
        site_name,
    }
}

/// The store's entries after Jira tokens are persisted: access token,
/// refresh token when present, scopes, then site URL, site name and cloud
/// id when present.
pub open spec fn jira_persisted(
    m: Map<Seq<char>, Seq<char>>,
    scope: CredentialScope,
    t: JiraStoredTokens,
) -> Map<Seq<char>, Seq<char>> {
    let m1 = m.insert(key_text(JIRA_KEY_ACCESS_TOKEN@, scope), t.access_token@);
    let m2 = write_opt(m1, JIRA_KEY_REFRESH_TOKEN@, scope, opt_text(t.refresh_token));
    let m3 = m2.insert(key_text(JIRA_KEY_SCOPE@, scope), t.scope@);
    let m4 = write_opt(m3, JIRA_KEY_SITE_URL@, scope, opt_text(t.site_url));
    let m5 = write_opt(m4, JIRA_KEY_SITE_NAME@, scope, opt_text(t.site_name));
    write_opt(m5, JIRA_KEY_CLOUD_ID@, scope, opt_text(t.cloud_id))
}

/// Jira tokens read back from stored entries, as (access token, refresh
/// token, scopes, cloud id, site URL, site name): none without an access
/// token; scopes default to empty.
pub open spec fn jira_loaded(m: Map<Seq<char>, Seq<char>>, scope: CredentialScope) -> Option<
    (
        Seq<char>,
        Option<Seq<char>>,
        Seq<char>,
        Option<Seq<char>>,
        Option<Seq<char>>,
        Option<Seq<char>>,
    ),
> {
    match lookup(m, JIRA_KEY_ACCESS_TOKEN@, scope) {
        Some(a) => Some(
            (
                a,
                lookup(m, JIRA_KEY_REFRESH_TOKEN@, scope),
                match lookup(m, JIRA_KEY_SCOPE@, scope) {
                    Some(s) => s,
                    None => Seq::empty(),
                },
                lookup(m, JIRA_KEY_CLOUD_ID@, scope),
                lookup(m, JIRA_KEY_SITE_URL@, scope),
                lookup(m, JIRA_KEY_SITE_NAME@, scope),
            ),
        ),
        None => None,
    }
}

/// The store's entries after a Jira disconnect: all six entries removed.
pub open spec fn jira_forgotten(m: Map<Seq<char>, Seq<char>>, scope: CredentialScope) -> Map<
    Seq<char>,
    Seq<char>,
> {
    m.remove(key_text(JIRA_KEY_ACCESS_TOKEN@, scope)).remove(
        key_text(JIRA_KEY_REFRESH_TOKEN@, scope),
    ).remove(key_text(JIRA_KEY_SCOPE@, scope)).remove(key_text(JIRA_KEY_SITE_URL@, scope)).remove(
        key_text(JIRA_KEY_SITE_NAME@, scope),
    ).remove(key_text(JIRA_KEY_CLOUD_ID@, scope))
}

impl JiraStoredTokens {
    /// Persist the tokens of `scope` (best effort, as after a callback).
    pub fn persist(&self, store: &mut MemoryStore, scope: &CredentialScope)
        ensures
            final(store)@ == jira_persisted(old(store)@, *scope, *self),
    {
        proof {
            reveal_strlit("jira/access_token");
            reveal_strlit("jira/refresh_token");
            reveal_strlit("jira/scope");
            reveal_strlit("jira/site_url");
            reveal_strlit("jira/site_name");
            reveal_strlit("jira/cloud_id");
        }
        let _ = store.store(JIRA_KEY_ACCESS_TOKEN, scope, self.access_token.as_str());
        store_opt(store, JIRA_KEY_REFRESH_TOKEN, scope, &self.refresh_token);
        let _ = store.store(JIRA_KEY_SCOPE, scope, self.scope.as_str());
        store_opt(store, JIRA_KEY_SITE_URL, scope, &self.site_url);
        store_opt(store, JIRA_KEY_SITE_NAME, scope, &self.site_name);
        store_opt(store, JIRA_KEY_CLOUD_ID, scope, &self.cloud_id);
    }

    /// Tokens of `scope` read back from the store; `None` when no access
    /// token is stored. The expiry is not persisted and reads as 0.
    pub fn load(store: &MemoryStore, scope: &CredentialScope) -> (r: Option<Self>)
        ensures
            match jira_loaded(store@, *scope) {
                Some(v) => r is Some && r->0.access_token@ == v.0 && opt_text(r->0.refresh_token)
                    == v.1 && r->0.scope@ == v.2 && opt_text(r->0.cloud_id) == v.3 && opt_text(
                    r->0.site_url,
                ) == v.4 && opt_text(r->0.site_name) == v.5 && r->0.expires_in == 0,
                None => r is None,
            },
    {
        match read_opt(store, JIRA_KEY_ACCESS_TOKEN, scope) {
            None => None,
            Some(access_token) => {
                let scope_text = match read_opt(store, JIRA_KEY_SCOPE, scope) {
                    Some(s) => s,
                    None => String::new(),
                };
                Some(
                    JiraStoredTokens {
                        access_token,
                        refresh_token: read_opt(store, JIRA_KEY_REFRESH_TOKEN, scope),
                        expires_in: 0,
                        scope: scope_text,
                        cloud_id: read_opt(store, JIRA_KEY_CLOUD_ID, scope),
                        site_url: read_opt(store, JIRA_KEY_SITE_URL, scope),
                        site_name: read_opt(store, JIRA_KEY_SITE_NAME, scope),
                    },
                )
            },
        }
    }
}

/// Remove every Jira credential of `scope` from the store.
pub fn forget_jira_tokens(store: &mut MemoryStore, scope: &CredentialScope)
    ensures
        final(store)@ == jira_forgotten(old(store)@, *scope),
{
    let _ = store.delete(JIRA_KEY_ACCESS_TOKEN, scope);
    let _ = store.delete(JIRA_KEY_REFRESH_TOKEN, scope);
    let _ = store.delete(JIRA_KEY_SCOPE, scope);
    let _ = store.delete(JIRA_KEY_SITE_URL, scope);
    let _ = store.delete(JIRA_KEY_SITE_NAME, scope);
    let _ = store.delete(JIRA_KEY_CLOUD_ID, scope);
}

proof fn lemma_jira_aliases_distinct(scope: CredentialScope)
    ensures
        ({
            let ks = seq![
                key_text(JIRA_KEY_ACCESS_TOKEN@, scope),
                key_text(JIRA_KEY_REFRESH_TOKEN@, scope),
                key_text(JIRA_KEY_SCOPE@, scope),
                key_text(JIRA_KEY_SITE_URL@, scope),
                key_text(JIRA_KEY_SITE_NAME@, scope),
                key_text(JIRA_KEY_CLOUD_ID@, scope),
            ];
            forall|i: int, j: int| 0 <= i < j < 6 ==> ks[i] != ks[j]
        }),
{
    reveal_strlit("jira/access_token");
    reveal_strlit("jira/refresh_token");
    reveal_strlit("jira/scope");
    reveal_strlit("jira/site_url");
    reveal_strlit("jira/site_name");
    reveal_strlit("jira/cloud_id");
    let a = seq![
        JIRA_KEY_ACCESS_TOKEN@,
        JIRA_KEY_REFRESH_TOKEN@,
        JIRA_KEY_SCOPE@,
        JIRA_KEY_SITE_URL@,
        JIRA_KEY_SITE_NAME@,
        JIRA_KEY_CLOUD_ID@,
    ];
    assert(a[0].len() == 17 && a[1].len() == 18 && a[2].len() == 10 && a[3].len() == 13
        && a[4].len() == 14 && a[5].len() == 13);
    assert(a[3][5] != a[5][5]);
    assert forall|i: int, j: int| 0 <= i < j < 6 implies a[i] != a[j] by {
        if i == 3 && j == 5 {
            assert(a[3][5] != a[5][5]);
        }
    }
    assert forall|i: int, j: int| 0 <= i < j < 6 implies key_text(a[i], scope) != key_text(
        a[j],
        scope,
    ) by {
        lemma_distinct_aliases(a[i], a[j], scope);
    }
}

/// Jira tokens written after a callback are read back unchanged after a
/// restart (with the expiry read as 0), provided no older optional entry of
/// the scope is left behind where the new tokens have none.
pub proof fn law_jira_tokens_survive_restart(
    m: Map<Seq<char>, Seq<char>>,
    scope: CredentialScope,
    t: JiraStoredTokens,
)
    requires
        t.refresh_token is None ==> lookup(m, JIRA_KEY_REFRESH_TOKEN@, scope) is None,
        t.cloud_id is None ==> lookup(m, JIRA_KEY_CLOUD_ID@, scope) is None,
        t.site_url is None ==> lookup(m, JIRA_KEY_SITE_URL@, scope) is None,
        t.site_name is None ==> lookup(m, JIRA_KEY_SITE_NAME@, scope) is None,
    ensures
        jira_loaded(jira_persisted(m, scope, t), scope) == Some(
            (
                t.access_token@,
                opt_text(t.refresh_token),
                t.scope@,
                opt_text(t.cloud_id),
                opt_text(t.site_url),
                opt_text(t.site_name),
            ),
        ),
{
    lemma_jira_aliases_distinct(scope);
    let ks = seq![
        key_text(JIRA_KEY_ACCESS_TOKEN@, scope),
        key_text(JIRA_KEY_REFRESH_TOKEN@, scope),
        key_text(JIRA_KEY_SCOPE@, scope),
        key_text(JIRA_KEY_SITE_URL@, scope),
        key_text(JIRA_KEY_SITE_NAME@, scope),
        key_text(JIRA_KEY_CLOUD_ID@, scope),
    ];
    assert(ks[0] != ks[1] && ks[0] != ks[2] && ks[0] != ks[3] && ks[0] != ks[4] && ks[0] != ks[5]);
    assert(ks[1] != ks[2] && ks[1] != ks[3] && ks[1] != ks[4] && ks[1] != ks[5]);
    assert(ks[2] != ks[3] && ks[2] != ks[4] && ks[2] != ks[5]);
    assert(ks[3] != ks[4] && ks[3] != ks[5] && ks[4] != ks[5]);
    let p = jira_persisted(m, scope, t);
    assert(lookup(p, JIRA_KEY_ACCESS_TOKEN@, scope) == Some(t.access_token@));
    assert(lookup(p, JIRA_KEY_REFRESH_TOKEN@, scope) == opt_text(t.refresh_token));
    assert(lookup(p, JIRA_KEY_SCOPE@, scope) == Some(t.scope@));
    assert(lookup(p, JIRA_KEY_SITE_URL@, scope) == opt_text(t.site_url));
    assert(lookup(p, JIRA_KEY_SITE_NAME@, scope) == opt_text(t.site_name));
    assert(lookup(p, JIRA_KEY_CLOUD_ID@, scope) == opt_text(t.cloud_id));
}

/// After a disconnect no Jira tokens are read back for the scope.
pub proof fn law_jira_disconnect_forgets(m: Map<Seq<char>, Seq<char>>, scope: CredentialScope)
    ensures
        jira_loaded(jira_forgotten(m, scope), scope) is None,
{
    lemma_jira_aliases_distinct(scope);
}

/// Answer of the Jira status endpoint.
#[derive(Debug, Clone)]
pub struct JiraStatusResponse {
    pub connected: bool,
    pub site_url: Option<String>,
    pub site_name: Option<String>,
}

/// Status of the Jira connection: connected with the site when tokens are
/// held, else not connected with no site.
pub fn jira_status_response(tokens: Option<&JiraStoredTokens>) -> (r: JiraStatusResponse)
    ensures
        r.connected == tokens is Some,
        match tokens {
            Some(t) => opt_text(r.site_url) == opt_text(t.site_url) && opt_text(r.site_name)
                == opt_text(t.site_name),
            None => r.site_url is None && r.site_name is None,
        },
{
    match tokens {
        Some(t) => JiraStatusResponse {
            connected: true,
            site_url: match &t.site_url {
                Some(u) => Some(u.clone()),
                None => None,
            },
            site_name: match &t.site_name {
                Some(n) => Some(n.clone()),
                None => None,
            },
        },
        None => JiraStatusResponse { connected: false, site_url: None, site_name: None },
    }
}

/// Tokens kept by the generic Atlassian OAuth endpoints, with the cloud
/// sites the token reaches.
#[derive(Debug, Clone)]
pub struct StoredTokens {
    pub access_token: String,
    pub refresh_token: Option<String>,
    /// Seconds until the access token expires (from time of issue).
    pub expires_in: u64,
    pub scope: String,
    pub sites: Vec<CloudResource>,
}

/// Query of an OAuth callback.
#[derive(Debug, Clone, PartialEq, Eq)]
pub struct CallbackQuery {
    /// The authorization code returned by the provider.
    pub code: String,
    /// The CSRF state token issued by `/authorize`.
    pub state: String,
}

/// Answer of `/authorize`: where to send the user, and the state token.
#[derive(Debug, Clone, PartialEq, Eq)]
pub struct AuthorizeResponse {
    pub url: String,
    pub state: String,
}

/// Answer of a successful callback: the accessible sites.
#[derive(Debug, Clone)]
pub struct CallbackResponse {
    pub success: bool,
    pub sites: Vec<CloudResource>,
}

/// Answer of a successful refresh.
#[derive(Debug, Clone, Copy, PartialEq, Eq)]
pub struct RefreshResponse {
    pub success: bool,
}

/// Answer of a disconnect.
#[derive(Debug, Clone, Copy, PartialEq, Eq)]
pub struct DisconnectResponse {
    pub success: bool,
}

/// Query of the GitHub OAuth callback.
#[derive(Debug, Clone, PartialEq, Eq)]
pub struct GithubCallbackQuery {
    pub code: String,
    pub state: String,
}

/// Answer of the GitHub `/auth` endpoint.
#[derive(Debug, Clone, PartialEq, Eq)]
pub struct GithubAuthResponse {
    pub url: String,
    pub state: String,
}

/// Answer of a successful GitHub callback.
#[derive(Debug, Clone, PartialEq, Eq)]
pub struct GithubCallbackResponse {
    pub success: bool,
    pub scope: String,
}

/// Answer of a GitHub disconnect.
#[derive(Debug, Clone, Copy, PartialEq, Eq)]
pub struct GithubDisconnectResponse {
    pub success: bool,
}

/// Query of the Jira OAuth callback.
#[derive(Debug, Clone, PartialEq, Eq)]
pub struct JiraCallbackQuery {
    pub code: String,
    pub state: String,
}

/// Answer of the Jira `/auth` endpoint.
#[derive(Debug, Clone, PartialEq, Eq)]
pub struct JiraAuthResponse {
    pub url: String,
    pub state: String,
}

/// Answer of a successful Jira callback.
#[derive(Debug, Clone, PartialEq, Eq)]
pub struct JiraCallbackResponse {
    pub success: bool,
    pub site_url: Option<String>,
    pub site_name: Option<String>,
}

/// Answer of a Jira disconnect.
#[derive(Debug, Clone, Copy, PartialEq, Eq)]
pub struct JiraDisconnectResponse {
    pub success: bool,
}

/// A GitHub token response.
#[derive(Debug, Clone, PartialEq, Eq)]
pub struct GithubTokenResponse {
    pub access_token: String,
    pub token_type: String,
    pub scope: String,
    pub refresh_token: Option<String>,
    pub expires_in: Option<u64>,
    pub refresh_token_expires_in: Option<u64>,
}

/// Tokens kept after a successful generic callback: the token response and
/// the sites it reaches.
pub fn stored_after_callback(tokens: JiraTokenResponse, sites: Vec<CloudResource>) -> (t: StoredTokens)
    ensures
        t.access_token == tokens.access_token,
        t.refresh_token == tokens.refresh_token,
        t.expires_in == tokens.expires_in,
        t.scope == tokens.scope,
        t.sites == sites,
{
    StoredTokens {
        access_token: tokens.access_token,
        refresh_token: tokens.refresh_token,
        expires_in: tokens.expires_in,
        scope: tokens.scope,
        sites,
    }
}

/// A refresh was asked for while no refresh token is kept.
#[derive(Debug, Clone, Copy, PartialEq, Eq)]
pub struct NoRefreshToken;

impl NoRefreshToken {
    /// The error text sent with the 400 answer.
    pub fn message(&self) -> (s: String)
        ensures
            s@ == "No refresh token stored. Please re-authorize."@,
    {
        string_from_literal("No refresh token stored. Please re-authorize.")
    }
}

/// The refresh token to present: the kept one, if tokens with a refresh
/// token are kept.
pub fn refresh_token_to_use(stored: &Option<StoredTokens>) -> (r: Result<String, NoRefreshToken>)
    ensures
        match stored {
            Some(t) => match t.refresh_token {
                Some(rt) => r == Ok::<String, NoRefreshToken>(rt),
                None => r == Err::<String, NoRefreshToken>(NoRefreshToken),
            },
            None => r == Err::<String, NoRefreshToken>(NoRefreshToken),
        },
{
    match stored {
        Some(t) => match &t.refresh_token {
            Some(rt) => Ok(rt.clone()),
            None => Err(NoRefreshToken),
        },
        None => Err(NoRefreshToken),
    }
}

/// Tokens kept after a refresh answered `fresh`.
pub open spec fn refreshed(old: StoredTokens, fresh: JiraTokenResponse) -> StoredTokens {
    StoredTokens {
        access_token: fresh.access_token,
        refresh_token: match fresh.refresh_token {
            Some(rt) => Some(rt),
            None => old.refresh_token,
        },
        expires_in: fresh.expires_in,
        scope: fresh.scope,
        sites: old.sites,
    }
}

/// Update the kept tokens with a refresh's answer: the new access token,
/// expiry and scope; the new refresh token if one came, else the kept one;
/// the sites unchanged. Nothing is kept when nothing was.
pub fn apply_refresh(stored: &mut Option<StoredTokens>, fresh: JiraTokenResponse)
    ensures
        match *old(stored) {
            Some(t) => *final(stored) == Some(refreshed(t, fresh)),
            None => *final(stored) is None,
        },
{
    match stored {
        Some(s) => {
            s.access_token = fresh.access_token;
            if let Some(rt) = fresh.refresh_token {
                s.refresh_token = Some(rt);
            }
            s.expires_in = fresh.expires_in;
            s.scope = fresh.scope;
        },
        None => {},
    }
}

/// A refresh whose answer carries no refresh token keeps the one that was
/// kept, and a refresh never changes the sites.
pub proof fn law_refresh_keeps_refresh_token_and_sites(old: StoredTokens, fresh: JiraTokenResponse)
    requires
        fresh.refresh_token is None,
    ensures
        refreshed(old, fresh).refresh_token == old.refresh_token,
        refreshed(old, fresh).sites == old.sites,
        refreshed(old, fresh).access_token == fresh.access_token,
{
}

} // verus!
