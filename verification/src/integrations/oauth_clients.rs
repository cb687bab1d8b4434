//! OAuth app credentials (GitHub and Jira) as read from the clients file.
//!
//! The file holds, per provider, an optional `client_id` and an optional
//! `client_secret`. Values are trimmed and blank ones dropped; a provider
//! without a `client_id` uses the built-in public id.

use vstd::prelude::*;

use super::oauth_redirect::opt_view;
use crate::text::{string_from_literal, trim_nonblank, trim_nonblank_str};

verus! {

/// Name of the clients file under the user's configuration directory.
pub const OAUTH_CLIENTS_FILENAME: &'static str = "oauth-clients.json";

/// Built-in GitHub OAuth app id (public).
pub const DEFAULT_GITHUB_OAUTH_CLIENT_ID: &'static str = "Iv23lip4ZuqkEmT9Z2U0";

/// Built-in Atlassian 3LO client id (public).
pub const DEFAULT_JIRA_OAUTH_CLIENT_ID: &'static str = "3yQWy34WyjCn0wtOfawofBTMmtK3gUgs";

/// One provider's entry in the clients file.
#[derive(Debug, Clone, Default)]
pub struct OAuthProviderEntry {
    pub client_id: Option<String>,
    pub client_secret: Option<String>,
}

/// The clients file: one entry per provider.
#[derive(Debug, Clone, Default)]
pub struct OAuthClientsFile {
    pub github: OAuthProviderEntry,
    pub jira: OAuthProviderEntry,
}

/// `s` trimmed, or `None` when absent or blank.
pub fn trim_opt(s: Option<String>) -> (r: Option<String>)
    ensures
        opt_view(&r) == trim_nonblank(opt_view(&s)),
{
    match s {
        Some(v) => {
            let t = trim_nonblank_str(Some(v.as_str()));
            match t {
                Some(x) => Some(x),
                None => None,
            }
        },
        None => None,
    }
}

/// The entry with both fields passed through [`trim_opt`].
pub fn trim_entry(e: OAuthProviderEntry) -> (r: OAuthProviderEntry)
    ensures
        opt_view(&r.client_id) == trim_nonblank(opt_view(&e.client_id)),
        opt_view(&r.client_secret) == trim_nonblank(opt_view(&e.client_secret)),
{
    OAuthProviderEntry { client_id: trim_opt(e.client_id), client_secret: trim_opt(e.client_secret) }
}

/// A parsed clients file with every value trimmed and blank ones dropped.
pub fn normalize_oauth_clients(f: OAuthClientsFile) -> (r: OAuthClientsFile)
    ensures
        opt_view(&r.github.client_id) == trim_nonblank(opt_view(&f.github.client_id)),
        opt_view(&r.github.client_secret) == trim_nonblank(opt_view(&f.github.client_secret)),
        opt_view(&r.jira.client_id) == trim_nonblank(opt_view(&f.jira.client_id)),
        opt_view(&r.jira.client_secret) == trim_nonblank(opt_view(&f.jira.client_secret)),
{
    OAuthClientsFile { github: trim_entry(f.github), jira: trim_entry(f.jira) }
}

/// `id`, or the built-in `default` when absent.
pub open spec fn id_or_default(id: Option<Seq<char>>, default: Seq<char>) -> Seq<char> {
    match id {
        Some(v) => v,
        None => default,
    }
}

fn fill_client_id(id: Option<String>, default: &str) -> (r: Option<String>)
    ensures
        r is Some,
        r.unwrap()@ == id_or_default(opt_view(&id), default@),
{
    match id {
        Some(v) => Some(v),
        None => Some(string_from_literal(default)),
    }
}

/// A loaded clients file in which each provider without a `client_id`
/// gets the built-in public id; secrets are kept as they are.
pub fn with_default_client_ids(f: OAuthClientsFile) -> (r: OAuthClientsFile)
    ensures
        r.github.client_id is Some,
        r.github.client_id.unwrap()@ == id_or_default(
            opt_view(&f.github.client_id),
            DEFAULT_GITHUB_OAUTH_CLIENT_ID@,
        ),
        r.jira.client_id is Some,
        r.jira.client_id.unwrap()@ == id_or_default(
            opt_view(&f.jira.client_id),
            DEFAULT_JIRA_OAUTH_CLIENT_ID@,
        ),
        opt_view(&r.github.client_secret) == opt_view(&f.github.client_secret),
        opt_view(&r.jira.client_secret) == opt_view(&f.jira.client_secret),
{
    OAuthClientsFile {
        github: OAuthProviderEntry {
            client_id: fill_client_id(f.github.client_id, DEFAULT_GITHUB_OAUTH_CLIENT_ID),
            client_secret: f.github.client_secret,
        },
        jira: OAuthProviderEntry {
            client_id: fill_client_id(f.jira.client_id, DEFAULT_JIRA_OAUTH_CLIENT_ID),
            client_secret: f.jira.client_secret,
        },
    }
}

fn clone_opt_string(o: &Option<String>) -> (r: Option<String>)
    ensures
        opt_view(&r) == opt_view(o),
{
    match o {
        Some(s) => Some(s.clone()),
        None => None,
    }
}

fn entry_credentials(e: Option<&OAuthProviderEntry>, default: &str) -> (r: (String, Option<String>))
    ensures
        match e {
            Some(x) => r.0@ == id_or_default(opt_view(&x.client_id), default@) && opt_view(&r.1)
                == opt_view(&x.client_secret),
            None => r.0@ == default@ && r.1 is None,
        },
{
    match e {
        Some(x) => {
            let id = match &x.client_id {
                Some(v) => v.clone(),
                None => string_from_literal(default),
            };
            (id, clone_opt_string(&x.client_secret))
        },
        None => (string_from_literal(default), None),
    }
}

/// GitHub OAuth app `client_id` and optional `client_secret` from the loaded
/// clients file; the built-in id and no secret when no file was loaded.
pub fn github_client_credentials(file: Option<&OAuthClientsFile>) -> (r: (String, Option<String>))
    ensures
        match file {
            Some(f) => r.0@ == id_or_default(
                opt_view(&f.github.client_id),
                DEFAULT_GITHUB_OAUTH_CLIENT_ID@,
            ) && opt_view(&r.1) == opt_view(&f.github.client_secret),
            None => r.0@ == DEFAULT_GITHUB_OAUTH_CLIENT_ID@ && r.1 is None,
        },
{
    match file {
        Some(f) => entry_credentials(Some(&f.github), DEFAULT_GITHUB_OAUTH_CLIENT_ID),
        None => entry_credentials(None, DEFAULT_GITHUB_OAUTH_CLIENT_ID),
    }
}

/// Jira (Atlassian 3LO) `client_id` and optional `client_secret` from the
/// loaded clients file; the built-in id and no secret when no file was loaded.
pub fn jira_client_credentials(file: Option<&OAuthClientsFile>) -> (r: (String, Option<String>))
    ensures
        match file {
            Some(f) => r.0@ == id_or_default(
                opt_view(&f.jira.client_id),
                DEFAULT_JIRA_OAUTH_CLIENT_ID@,
            ) && opt_view(&r.1) == opt_view(&f.jira.client_secret),
            None => r.0@ == DEFAULT_JIRA_OAUTH_CLIENT_ID@ && r.1 is None,
        },
{
    match file {
        Some(f) => entry_credentials(Some(&f.jira), DEFAULT_JIRA_OAUTH_CLIENT_ID),
        None => entry_credentials(None, DEFAULT_JIRA_OAUTH_CLIENT_ID),
    }
}

/// Cache state after a read of the clients file is offered: the first read
/// is kept, every later one is ignored.
pub open spec fn filled(
    state: Option<Option<OAuthClientsFile>>,
    read: Option<OAuthClientsFile>,
) -> Option<Option<OAuthClientsFile>> {
    match state {
        None => Some(read),
        Some(kept) => Some(kept),
    }
}

/// The clients file a cache state answers with: the kept read, none before
/// the first read.
pub open spec fn cached_file(state: Option<Option<OAuthClientsFile>>) -> Option<OAuthClientsFile> {
    match state {
        Some(Some(f)) => Some(f),
        _ => None,
    }
}

/// The clients file, read at most once per process: the application reads
/// the file when [`OAuthClientsCache::needs_load`] says so and hands the
/// result to [`OAuthClientsCache::fill`].
pub struct OAuthClientsCache {
    loaded: Option<Option<OAuthClientsFile>>,
}

impl View for OAuthClientsCache {
    type V = Option<Option<OAuthClientsFile>>;

    closed spec fn view(&self) -> Option<Option<OAuthClientsFile>> {
        self.loaded
    }
}

impl OAuthClientsCache {
    /// Nothing read yet.
    pub fn new() -> (c: Self)
        ensures
            c@ is None,
    {
        OAuthClientsCache { loaded: None }
    }

    /// Whether the file still has to be read.
    pub fn needs_load(&self) -> (b: bool)
        ensures
            b == self@ is None,
    {
        self.loaded.is_none()
    }

    /// Offer a read of the file (`None` when it could not be read); kept
    /// only when it is the first.
    pub fn fill(&mut self, read: Option<OAuthClientsFile>)
        ensures
            final(self)@ == filled(old(self)@, read),
    {
        if self.loaded.is_none() {
            self.loaded = Some(read);
        }
    }

    /// The kept clients file, if one was read.
    pub fn file(&self) -> (f: Option<&OAuthClientsFile>)
        ensures
            match f {
                Some(x) => cached_file(self@) == Some(*x),
                None => cached_file(self@) is None,
            },
    {
        match &self.loaded {
            Some(Some(f)) => Some(f),
            _ => None,
        }
    }

    /// GitHub client id and secret from the kept file (see
    /// [`github_client_credentials`]).
    pub fn github_credentials(&self) -> (r: (String, Option<String>))
        ensures
            match cached_file(self@) {
                Some(f) => r.0@ == id_or_default(
                    opt_view(&f.github.client_id),
                    DEFAULT_GITHUB_OAUTH_CLIENT_ID@,
                ) && opt_view(&r.1) == opt_view(&f.github.client_secret),
                None => r.0@ == DEFAULT_GITHUB_OAUTH_CLIENT_ID@ && r.1 is None,
            },
    {
        github_client_credentials(self.file())
    }

    /// Jira client id and secret from the kept file (see
    /// [`jira_client_credentials`]).
    pub fn jira_credentials(&self) -> (r: (String, Option<String>))
        ensures
            match cached_file(self@) {
                Some(f) => r.0@ == id_or_default(
                    opt_view(&f.jira.client_id),
                    DEFAULT_JIRA_OAUTH_CLIENT_ID@,
                ) && opt_view(&r.1) == opt_view(&f.jira.client_secret),
                None => r.0@ == DEFAULT_JIRA_OAUTH_CLIENT_ID@ && r.1 is None,
            },
    {
        jira_client_credentials(self.file())
    }
}

/// The clients file is read once: after the first read is kept, offering
/// any later read changes nothing, so the credentials every later call
/// answers with come from the first read.
pub proof fn law_clients_file_read_once(
    state: Option<Option<OAuthClientsFile>>,
    first: Option<OAuthClientsFile>,
    later: Option<OAuthClientsFile>,
)
    ensures
        filled(filled(state, first), later) == filled(state, first),
        state is None ==> cached_file(filled(filled(state, first), later)) == first,
{
}

} // verus!
