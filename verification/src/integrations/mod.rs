//! External integrations: GitHub and Jira helpers, OAuth redirect and client
//! configuration, and the decisions behind issue import.

pub mod oauth_redirect;
pub mod oauth_common;
pub mod oauth_pending;
pub mod oauth_clients;
pub mod github;
pub mod github_import;
pub mod github_app;
pub mod json;
pub mod jira;
pub mod oauth_tokens;
