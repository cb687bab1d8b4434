//! Credential scopes, storage keys and errors.

use vstd::prelude::*;

use crate::ids::{parse_ulid, ulid_text, ulid_to_string};
use crate::text::{concat2, concat3, push_str, str_eq, string_from_literal, trim, trim_str};

verus! {

/// Identifier of a monitored project (a ULID value).
#[derive(Debug, Clone, Copy, PartialEq, Eq, Hash, Structural)]
pub struct ProjectId(pub u128);

/// Scoping context of a stored credential.
#[derive(Debug, Clone, PartialEq, Eq, Hash)]
pub enum CredentialScope {
    /// Accessible from any pipeline.
    Global,
    /// Scoped to a monitored project.
    Project(ProjectId),
    /// Scoped to a named pipeline.
    Pipeline(String),
    /// Scoped to a stage of a pipeline.
    Stage(String, String),
}

/// Display text of a scope: `global`, `project:{id}`, `pipeline:{name}`
/// or `stage:{pipeline}:{stage}`.
pub open spec fn scope_text(s: CredentialScope) -> Seq<char> {
    match s {
        CredentialScope::Global => "global"@,
        CredentialScope::Project(id) => "project:"@ + ulid_text(id.0),
        CredentialScope::Pipeline(name) => "pipeline:"@ + name@,
        CredentialScope::Stage(p, st) => "stage:"@ + p@ + ":"@ + st@,
    }
}

/// Storage key of a credential: `molt-hub:{scope}:{alias}`.
pub open spec fn key_text(alias: Seq<char>, scope: CredentialScope) -> Seq<char> {
    "molt-hub:"@ + scope_text(scope) + ":"@ + alias
}

impl CredentialScope {
    /// Display text (see [`scope_text`]).
    pub fn to_string(&self) -> (s: String)
        ensures
            s@ == scope_text(*self),
    {
        match self {
            CredentialScope::Global => string_from_literal("global"),
            CredentialScope::Project(id) => {
                let t = ulid_to_string(id.0);
                concat2("project:", t.as_str())
            },
            CredentialScope::Pipeline(name) => concat2("pipeline:", name.as_str()),
            CredentialScope::Stage(p, st) => {
                let mut s = concat3("stage:", p.as_str(), ":");
                push_str(&mut s, st.as_str());
                s
            },
        }
    }

    /// A copy of the scope.
    pub fn duplicate(&self) -> (r: Self)
        ensures
            r == *self,
    {
        match self {
            CredentialScope::Global => CredentialScope::Global,
            CredentialScope::Project(id) => CredentialScope::Project(*id),
            CredentialScope::Pipeline(n) => CredentialScope::Pipeline(n.clone()),
            CredentialScope::Stage(p, s) => CredentialScope::Stage(p.clone(), s.clone()),
        }
    }
}

/// Storage key for `alias` in `scope`.
pub fn storage_key(alias: &str, scope: &CredentialScope) -> (k: String)
    ensures
        k@ == key_text(alias@, *scope),
{
    let st = scope.to_string();
    let mut k = concat3("molt-hub:", st.as_str(), ":");
    push_str(&mut k, alias);
    k
}

/// Scope for an integration request's optional `projectId`: missing,
/// blank, `default` or not a ULID give the global scope; a ULID gives that
/// project's scope.
pub open spec fn integration_scope(param: Option<Seq<char>>) -> CredentialScope {
    match param {
        None => CredentialScope::Global,
        Some(raw) => if trim(raw).len() == 0 || trim(raw) == "default"@ {
            CredentialScope::Global
        } else {
            match crate::ids::ulid_value(trim(raw)) {
                Some(u) => CredentialScope::Project(ProjectId(u)),
                None => CredentialScope::Global,
            }
        },
    }
}

/// Resolve the credential scope of an integration request from its optional
/// `projectId` (see [`integration_scope`]).
pub fn credential_scope_for_integration(project_id_param: Option<&str>) -> (s: CredentialScope)
    ensures
        s == integration_scope(
            match project_id_param {
                Some(p) => Some(p@),
                None => None,
            },
        ),
{
    match project_id_param {
        None => CredentialScope::Global,
        Some(p) => {
            let raw = trim_str(p);
            if raw.as_str().is_empty() || str_eq(raw.as_str(), "default") {
                return CredentialScope::Global;
            }
            match parse_ulid(raw.as_str()) {
                Ok(u) => CredentialScope::Project(ProjectId(u)),
                Err(_) => CredentialScope::Global,
            }
        },
    }
}

/// Query `?projectId=<ulid>`: scopes OAuth tokens and REST clients to a
/// monitored project.
#[derive(Debug, Clone, PartialEq, Eq)]
pub struct ProjectIdQuery {
    pub project_id: Option<String>,
}

impl ProjectIdQuery {
    /// The credential scope the query selects (see [`integration_scope`]).
    pub fn credential_scope(&self) -> (s: CredentialScope)
        ensures
            s == integration_scope(
                match self.project_id {
                    Some(p) => Some(p@),
                    None => None,
                },
            ),
    {
        match &self.project_id {
            Some(p) => credential_scope_for_integration(Some(p.as_str())),
            None => credential_scope_for_integration(None),
        }
    }
}

/// Errors of credential stores.
#[derive(Debug, Clone, PartialEq, Eq)]
pub enum CredentialError {
    /// No credential under this alias and scope.
    NotFound { alias: String, scope: String },
    /// The OS keychain reported an error.
    Keychain(String),
    /// An I/O error, by its message.
    Io(String),
    /// The alias is empty.
    InvalidAlias(String),
}

/// Credential store backed by the OS keychain (service `molt-hub`); the
/// keychain calls themselves are made by the application.
#[derive(Debug, Clone, Copy, PartialEq, Eq, Structural)]
pub struct KeyringStore;

impl KeyringStore {
    /// The keychain store.
    pub fn new() -> (s: Self) {
        KeyringStore
    }

    /// Keychain account name of a credential: `{scope}:{alias}`.
    pub fn account(alias: &str, scope: &CredentialScope) -> (a: String)
        ensures
            a@ == scope_text(*scope) + ":"@ + alias@,
    {
        let st = scope.to_string();
        concat3(st.as_str(), ":", alias)
    }
}

} // verus!
