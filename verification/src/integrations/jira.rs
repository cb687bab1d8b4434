//! Jira REST types, error reporting, conversion of raw issues, error body
//! summaries, and the decisions of issue import.

use vstd::prelude::*;

use super::json::{extract_plain_text, json_text, plain_text, to_json_text, JsonValue};
use crate::domain::{DomainEvent, EventEnvelope, Priority};
use crate::ids::{fresh_ulid_string, now_rfc3339};
use crate::text::{
    chars_of, concat2, decimal, find_seq, push_str, str_eq, string_from_literal,
    string_from_slice, trim, trim_nonblank, trim_nonblank_str, trim_str, u64_to_string,
    vec_find,
};
use vstd::utf8::{decode_utf8, encode_utf8, is_char_boundary};

verus! {

/// A Jira issue as the UI and import see it.
#[derive(Debug, Clone)]
pub struct JiraIssue {
    /// Issue key, e.g. `PROJ-42`.
    pub key: String,
    pub summary: String,
    /// Description as plain text.
    pub description: Option<String>,
    /// Status name (e.g. "To Do").
    pub status: String,
    /// Priority name (e.g. "High").
    pub priority: Option<String>,
    pub labels: Vec<String>,
    /// Browser URL of the issue.
    pub url: String,
}

/// A Jira project.
#[derive(Debug, Clone)]
pub struct JiraProject {
    pub key: String,
    pub name: String,
}

/// Errors of Jira REST calls; a transport failure carries the HTTP
/// client's message.
#[derive(Debug, Clone)]
pub enum JiraError {
    HttpError(String),
    AuthError { status: u16 },
    NotFound { key: String },
    ParseError(String),
    ApiError { status: u16, message: String },
}

/// Display text of a [`JiraError`].
pub open spec fn jira_error_text(e: JiraError) -> Seq<char> {
    match e {
        JiraError::HttpError(m) => "HTTP error: "@ + m@,
        JiraError::AuthError { status } => "authentication failed (HTTP "@ + decimal(status as nat)
            + ")"@,
        JiraError::NotFound { key } => "resource not found: "@ + key@,
        JiraError::ParseError(m) => "parse error: "@ + m@,
        JiraError::ApiError { status, message } => "Jira API error (HTTP "@ + decimal(
            status as nat,
        ) + "): "@ + message@,
    }
}

impl JiraError {
    /// Display text of the error.
    pub fn to_string(&self) -> (s: String)
        ensures
            s@ == jira_error_text(*self),
    {
        match self {
            JiraError::HttpError(m) => concat2("HTTP error: ", m.as_str()),
            JiraError::AuthError { status } => {
                let d = u64_to_string(*status as u64);
                let mut s = concat2("authentication failed (HTTP ", d.as_str());
                push_str(&mut s, ")");
                s
            },
            JiraError::NotFound { key } => concat2("resource not found: ", key.as_str()),
            JiraError::ParseError(m) => concat2("parse error: ", m.as_str()),
            JiraError::ApiError { status, message } => {
                let d = u64_to_string(*status as u64);
                let mut s = concat2("Jira API error (HTTP ", d.as_str());
                push_str(&mut s, "): ");
                push_str(&mut s, message.as_str());
                s
            },
        }
    }
}

/// HTTP status a handler answers with for a Jira error: 401, 404, 502 for
/// transport failures, 500 for unreadable responses, and for an API error
/// its own status when that is a client error (4xx), else 502.
pub open spec fn jira_error_status(e: JiraError) -> u16 {
    match e {
        JiraError::AuthError { .. } => 401,
        JiraError::NotFound { .. } => 404,
        JiraError::HttpError(_) => 502,
        JiraError::ParseError(_) => 500,
        JiraError::ApiError { status, .. } => if 400 <= status && status <= 499 {
            status
        } else {
            502
        },
    }
}

/// Status and message a handler answers with for a Jira error; an API
/// error answers with Jira's own message.
pub fn jira_error_to_http(e: &JiraError) -> (r: (u16, String))
    ensures
        r.0 == jira_error_status(*e),
        match e {
            JiraError::ApiError { message, .. } => r.1@ == message@,
            _ => r.1@ == jira_error_text(*e),
        },
{
    match e {
        JiraError::AuthError { .. } => (401, e.to_string()),
        JiraError::NotFound { .. } => (404, e.to_string()),
        JiraError::HttpError(_) => (502, e.to_string()),
        JiraError::ParseError(_) => (500, e.to_string()),
        JiraError::ApiError { status, message } => {
            let code = if 400 <= *status && *status <= 499 {
                *status
            } else {
                502
            };
            (code, message.clone())
        },
    }
}

/// Jira REST endpoint and bearer token of one Atlassian site.
#[derive(Debug, Clone)]
pub struct JiraClient {
    /// Base URL including the cloud id, e.g.
    /// `https://api.atlassian.com/ex/jira/<cloud-id>/rest/api/3`.
    pub base_url: String,
    /// OAuth 2.0 access token.
    pub access_token: String,
}

impl JiraClient {
    /// Client for the site `cloud_id`, authenticating with `access_token`.
    pub fn from_oauth(cloud_id: &str, access_token: &str) -> (c: Self)
        ensures
            c.base_url@ == "https://api.atlassian.com/ex/jira/"@ + cloud_id@ + "/rest/api/3"@,
            c.access_token@ == access_token@,
    {
        let mut base_url = concat2("https://api.atlassian.com/ex/jira/", cloud_id);
        push_str(&mut base_url, "/rest/api/3");
        JiraClient { base_url, access_token: string_from_literal(access_token) }
    }

    /// URL of `GET /search`.
    pub fn search_url(&self) -> (u: String)
        ensures
            u@ == self.base_url@ + "/search"@,
    {
        concat2(self.base_url.as_str(), "/search")
    }

    /// URL of `GET /issue/{key}`.
    pub fn issue_url(&self, issue_key: &str) -> (u: String)
        ensures
            u@ == self.base_url@ + "/issue/"@ + issue_key@,
    {
        let mut u = concat2(self.base_url.as_str(), "/issue/");
        push_str(&mut u, issue_key);
        u
    }

    /// URL of `GET /project`.
    pub fn projects_url(&self) -> (u: String)
        ensures
            u@ == self.base_url@ + "/project"@,
    {
        concat2(self.base_url.as_str(), "/project")
    }
}

/// Status member of a raw issue.
#[derive(Debug)]
pub struct StatusField {
    pub name: String,
}

/// Priority member of a raw issue.
#[derive(Debug)]
pub struct PriorityField {
    pub name: String,
}

/// Fields of a raw issue as the REST API returns them.
#[derive(Debug)]
pub struct IssueFields {
    pub summary: String,
    pub description: Option<JsonValue>,
    pub status: StatusField,
    pub priority: Option<PriorityField>,
    pub labels: Option<Vec<String>>,
}

/// A raw issue as the REST API returns it; `self_url` is its API URL.
#[derive(Debug)]
pub struct IssueRaw {
    pub key: String,
    pub self_url: String,
    pub fields: IssueFields,
}

/// Browser URL of an issue: the part of its API URL before `/rest/api/`,
/// then `/browse/<key>`; the API URL itself when it has no `/rest/api/`.
pub open spec fn browse_url(self_url: Seq<char>, key: Seq<char>) -> Seq<char> {
    match find_seq(self_url, "/rest/api/"@) {
        Some(i) => self_url.take(i) + "/browse/"@ + key,
        None => self_url,
    }
}

/// The issue a raw REST issue describes: key, summary, status and priority
/// names, labels (none when absent), the plain text of its description and
/// its browser URL.
pub fn raw_to_issue(raw: IssueRaw) -> (issue: JiraIssue)
    ensures
        issue.key@ == raw.key@,
        issue.summary@ == raw.fields.summary@,
        issue.status@ == raw.fields.status.name@,
        issue.url@ == browse_url(raw.self_url@, raw.key@),
        match raw.fields.description {
            Some(d) => issue.description is Some && issue.description->0@ == plain_text(d),
            None => issue.description is None,
        },
        match raw.fields.priority {
            Some(p) => issue.priority is Some && issue.priority->0@ == p.name@,
            None => issue.priority is None,
        },
        match raw.fields.labels {
            Some(l) => issue.labels@ == l@,
            None => issue.labels@.len() == 0,
        },
{
    let su = chars_of(raw.self_url.as_str());
    let pat = chars_of("/rest/api/");
    let url = match vec_find(&su, &pat) {
        Some(pos) => {
            let mut u = string_from_slice(&su, 0, pos);
            push_str(&mut u, "/browse/");
            push_str(&mut u, raw.key.as_str());
            u
        },
        None => raw.self_url,
    };
    let description = match &raw.fields.description {
        Some(v) => Some(extract_plain_text(v)),
        None => None,
    };
    let priority = match raw.fields.priority {
        Some(p) => Some(p.name),
        None => None,
    };
    let labels = match raw.fields.labels {
        Some(l) => l,
        None => Vec::new(),
    };
    JiraIssue {
        key: raw.key,
        summary: raw.fields.summary,
        description,
        status: raw.fields.status.name,
        priority,
        labels,
        url,
    }
}

/// The usual Jira REST error body: `errorMessages`, and `errors` as
/// (field, message) pairs with non-string values given as their JSON text.
#[derive(Debug, Clone)]
pub struct JiraErrorEnvelope {
    pub error_messages: Vec<String>,
    pub errors: Vec<(String, String)>,
}

/// Non-empty messages of `msgs`, in order.
pub open spec fn nonempty_messages(msgs: Seq<String>) -> Seq<Seq<char>>
    decreases msgs.len(),
{
    if msgs.len() == 0 {
        Seq::empty()
    } else {
        let rest = nonempty_messages(msgs.drop_last());
        if msgs.last()@.len() > 0 {
            rest.push(msgs.last()@)
        } else {
            rest
        }
    }
}

/// `field: message` for each pair of `errors`, in order.
pub open spec fn error_pairs(errors: Seq<(String, String)>) -> Seq<Seq<char>>
    decreases errors.len(),
{
    if errors.len() == 0 {
        Seq::empty()
    } else {
        error_pairs(errors.drop_last()).push(errors.last().0@ + ": "@ + errors.last().1@)
    }
}

/// `parts` joined with `"; "`.
pub open spec fn join_semicolons(parts: Seq<Seq<char>>) -> Seq<char>
    decreases parts.len(),
{
    if parts.len() == 0 {
        Seq::empty()
    } else if parts.len() == 1 {
        parts[0]
    } else {
        join_semicolons(parts.drop_last()) + "; "@ + parts.last()
    }
}

/// Message parts of an error envelope.
pub open spec fn envelope_parts(env: JiraErrorEnvelope) -> Seq<Seq<char>> {
    nonempty_messages(env.error_messages@) + error_pairs(env.errors@)
}

/// The raw body when no message parts were found: trimmed, a placeholder
/// when empty, cut to its first 400 bytes with an ellipsis when longer.
pub open spec fn body_summary(body: Seq<char>) -> Seq<char> {
    let t = trim(body);
    if t.len() == 0 {
        "(empty response body)"@
    } else if encode_utf8(t).len() > 400 {
        decode_utf8(encode_utf8(t).take(400)) + "…"@
    } else {
        t
    }
}

/// Summary of a Jira error response: the envelope's non-empty messages and
/// `field: message` pairs joined with `"; "`, or else the body itself.
pub open spec fn jira_error_summary(env: Option<JiraErrorEnvelope>, body: Seq<char>) -> Seq<char> {
    match env {
        Some(e) => if envelope_parts(e).len() > 0 {
            join_semicolons(envelope_parts(e))
        } else {
            body_summary(body)
        },
        None => body_summary(body),
    }
}

/// The body can be summarized: its trimmed text fits in memory, and when it
/// is longer than 400 bytes, byte 400 ends a character.
pub open spec fn body_cuttable(body: Seq<char>) -> bool {
    &&& encode_utf8(trim(body)).len() <= usize::MAX
    &&& encode_utf8(trim(body)).len() <= 400 || is_char_boundary(encode_utf8(trim(body)), 400)
}

fn join_parts(parts: &Vec<String>) -> (s: String)
    ensures
        s@ == join_semicolons(parts@.map_values(|p: String| p@)),
{
    let mut s = String::new();
    let mut i: usize = 0;
    while i < parts.len()
        invariant
            i <= parts.len(),
            s@ == join_semicolons(parts@.take(i as int).map_values(|p: String| p@)),
        decreases parts.len() - i,
    {
        if i > 0 {
            push_str(&mut s, "; ");
        }
        push_str(&mut s, parts[i].as_str());
        i = i + 1;
        assert(parts@.take(i as int).map_values(|p: String| p@).drop_last() == parts@.take(
            i - 1,
        ).map_values(|p: String| p@));
    }
    assert(parts@.take(parts.len() as int) == parts@);
    s
}

fn summarize_body(body: &str) -> (s: String)
    requires
        body_cuttable(body@),
    ensures
        s@ == body_summary(body@),
{
    let t = trim_str(body);
    let ts = t.as_str();
    assert(ts@ == trim(body@));
    if ts.is_empty() {
        string_from_literal("(empty response body)")
    } else if ts.len() > 400 {
        let (head, _rest) = ts.split_at(400);
        proof {
            assert(encode_utf8(head@) =~= encode_utf8(ts@).take(400));
            vstd::utf8::encode_utf8_decode_utf8(head@);
            assert(head@ == decode_utf8(encode_utf8(trim(body@)).take(400)));
        }
        let r = concat2(head, "…");
        assert(r@ == decode_utf8(encode_utf8(trim(body@)).take(400)) + "…"@);
        r
    } else {
        t
    }
}

/// Summary of a Jira error response from its parsed envelope (`None` when
/// the body is not such an envelope) and its raw body.
pub fn summarize_jira_error_response(envelope: Option<&JiraErrorEnvelope>, body: &str) -> (s: String)
    requires
        body_cuttable(body@),
    ensures
        s@ == jira_error_summary(
            match envelope {
                Some(e) => Some(*e),
                None => None,
            },
            body@,
        ),
{
    match envelope {
        Some(env) => {
            let mut parts: Vec<String> = Vec::new();
            let mut i: usize = 0;
            while i < env.error_messages.len()
                invariant
                    i <= env.error_messages.len(),
                    parts@.map_values(|p: String| p@) == nonempty_messages(
                        env.error_messages@.take(i as int),
                    ),
                decreases env.error_messages.len() - i,
            {
                let m = &env.error_messages[i];
                assert(env.error_messages@.take(i + 1).drop_last() == env.error_messages@.take(
                    i as int,
                ));
                if !m.as_str().is_empty() {
                    parts.push(m.clone());
                    assert(parts@.map_values(|p: String| p@) == nonempty_messages(
                        env.error_messages@.take(i as int),
                    ).push(m@));
                }
                i = i + 1;
            }
            assert(env.error_messages@.take(env.error_messages.len() as int)
                == env.error_messages@);
            let ghost msgs = parts@.map_values(|p: String| p@);
            let mut j: usize = 0;
            while j < env.errors.len()
                invariant
                    j <= env.errors.len(),
                    parts@.map_values(|p: String| p@) == msgs + error_pairs(
                        env.errors@.take(j as int),
                    ),
                decreases env.errors.len() - j,
            {
                let (k, v) = &env.errors[j];
                let mut item = concat2(k.as_str(), ": ");
                push_str(&mut item, v.as_str());
                assert(env.errors@.take(j + 1).drop_last() == env.errors@.take(j as int));
                let ghost before = parts@.map_values(|p: String| p@);
                parts.push(item);
                assert(parts@.map_values(|p: String| p@) == before.push(
                    env.errors@[j as int].0@ + ": "@ + env.errors@[j as int].1@,
                ));
                j = j + 1;
            }
            assert(env.errors@.take(env.errors.len() as int) == env.errors@);
            if parts.len() > 0 {
                join_parts(&parts)
            } else {
                summarize_body(body)
            }
        },
        None => summarize_body(body),
    }
}

/// The error a Jira response means: 401 or 403 is an `AuthError`, any
/// other status outside 200..=299 an `ApiError` with the summary of the
/// body (see [`jira_error_summary`]); a success none. `envelope` is what the
/// body parsed to as an error envelope, if it did.
pub fn jira_response_error(status: u16, envelope: Option<&JiraErrorEnvelope>, body: &str) -> (r:
    Option<JiraError>)
    requires
        body_cuttable(body@),
    ensures
        (status == 401 || status == 403) ==> r == Some(JiraError::AuthError { status }),
        (200 <= status && status <= 299) ==> r is None,
        !(status == 401 || status == 403 || (200 <= status && status <= 299)) ==> (r matches Some(
            JiraError::ApiError { status: s, message },
        ) && s == status && message@ == jira_error_summary(
            match envelope {
                Some(e) => Some(*e),
                None => None,
            },
            body@,
        )),
{
    if status == 401 || status == 403 {
        Some(JiraError::AuthError { status })
    } else if 200 <= status && status <= 299 {
        None
    } else {
        Some(JiraError::ApiError { status, message: summarize_jira_error_response(envelope, body) })
    }
}

/// The error a response to `GET /issue/{key}` means: as
/// [`jira_response_error`], except that a 404 is `NotFound` for the key.
pub fn jira_issue_response_error(
    status: u16,
    issue_key: &str,
    envelope: Option<&JiraErrorEnvelope>,
    body: &str,
) -> (r: Option<JiraError>)
    requires
        body_cuttable(body@),
    ensures
        (status == 401 || status == 403) ==> r == Some(JiraError::AuthError { status }),
        status == 404 ==> (r matches Some(JiraError::NotFound { key }) && key@ == issue_key@),
        (200 <= status && status <= 299) ==> r is None,
        !(status == 401 || status == 403 || status == 404 || (200 <= status && status <= 299))
            ==> (r matches Some(JiraError::ApiError { status: s, message }) && s == status
            && message@ == jira_error_summary(
            match envelope {
                Some(e) => Some(*e),
                None => None,
            },
            body@,
        )),
{
    if status == 404 {
        Some(JiraError::NotFound { key: string_from_literal(issue_key) })
    } else {
        jira_response_error(status, envelope, body)
    }
}

/// Task priority for a Jira priority name: Highest, Critical and Blocker
/// are P0; High is P1; Low, Lowest and Minor are P3; anything else P2.
pub open spec fn jira_priority(name: Option<Seq<char>>) -> Priority {
    match name {
        Some(n) => if n == "Highest"@ || n == "Critical"@ || n == "Blocker"@ {
            Priority::P0
        } else if n == "High"@ {
            Priority::P1
        } else if n == "Low"@ || n == "Lowest"@ || n == "Minor"@ {
            Priority::P3
        } else {
            Priority::P2
        },
        None => Priority::P2,
    }
}

/// Task priority for a Jira priority name.
pub fn map_priority(jira_priority_name: Option<&str>) -> (p: Priority)
    ensures
        p == jira_priority(
            match jira_priority_name {
                Some(n) => Some(n@),
                None => None,
            },
        ),
{
    match jira_priority_name {
        Some(n) => {
            if str_eq(n, "Highest") || str_eq(n, "Critical") || str_eq(n, "Blocker") {
                Priority::P0
            } else if str_eq(n, "High") {
                Priority::P1
            } else if str_eq(n, "Low") || str_eq(n, "Lowest") || str_eq(n, "Minor") {
                Priority::P3
            } else {
                Priority::P2
            }
        },
        None => Priority::P2,
    }
}

/// Stage an imported issue starts in: the given stage trimmed, `backlog`
/// when blank.
pub open spec fn import_stage(initial_stage: Seq<char>) -> Seq<char> {
    if trim(initial_stage).len() == 0 {
        "backlog"@
    } else {
        trim(initial_stage)
    }
}

/// Stage an imported issue starts in.
pub fn import_stage_of(initial_stage: &str) -> (s: String)
    ensures
        s@ == import_stage(initial_stage@),
{
    let t = trim_str(initial_stage);
    if t.as_str().is_empty() {
        string_from_literal("backlog")
    } else {
        t
    }
}

/// Stage requested for an import: the request's stage trimmed, `backlog`
/// when absent or blank.
pub fn requested_import_stage(initial_stage: Option<&str>) -> (s: String)
    ensures
        s@ == match trim_nonblank(
            match initial_stage {
                Some(v) => Some(v@),
                None => None,
            },
        ) {
            Some(v) => v,
            None => "backlog"@,
        },
{
    match trim_nonblank_str(initial_stage) {
        Some(v) => v,
        None => string_from_literal("backlog"),
    }
}

/// Query of `GET /api/integrations/jira/search`.
#[derive(Debug, Clone, PartialEq, Eq)]
pub struct SearchQuery {
    pub jql: String,
    /// Optional cloud id override; defaults to the stored site.
    pub cloud_id: Option<String>,
    pub project_id: Option<String>,
}

/// Body of `POST /api/integrations/jira/import`.
#[derive(Debug, Clone, PartialEq, Eq)]
pub struct ImportRequest {
    pub issue_keys: Vec<String>,
    /// Optional cloud id override; defaults to the stored site.
    pub cloud_id: Option<String>,
    pub project_id: Option<String>,
    /// Pipeline stage id on the active board; defaults to `backlog`.
    pub initial_stage: Option<String>,
}

impl ImportRequest {
    /// Stage the imported issues start in (see [`requested_import_stage`]).
    pub fn stage(&self) -> (s: String)
        ensures
            s@ == match trim_nonblank(
                match self.initial_stage {
                    Some(v) => Some(v@),
                    None => None,
                },
            ) {
                Some(v) => v,
                None => "backlog"@,
            },
    {
        match &self.initial_stage {
            Some(v) => requested_import_stage(Some(v.as_str())),
            None => requested_import_stage(None),
        }
    }
}

/// Site a client talks to: the requested cloud id, else the one stored with
/// the OAuth session; `None` when neither is known.
pub fn select_cloud_id(requested: Option<&str>, stored: Option<&str>) -> (r: Option<String>)
    ensures
        match requested {
            Some(c) => r is Some && r->0@ == c@,
            None => match stored {
                Some(c) => r is Some && r->0@ == c@,
                None => r is None,
            },
        },
{
    match requested {
        Some(c) => Some(string_from_literal(c)),
        None => match stored {
            Some(c) => Some(string_from_literal(c)),
            None => None,
        },
    }
}

/// Errors of Jira import.
#[derive(Debug, Clone)]
pub enum ImportError {
    Jira(JiraError),
    EventStore(String),
    IssueFailed { key: String, reason: String },
}

/// Display text of an [`ImportError`].
pub open spec fn import_error_text(e: ImportError) -> Seq<char> {
    match e {
        ImportError::Jira(j) => "Jira error: "@ + jira_error_text(j),
        ImportError::EventStore(m) => "event store error: "@ + m@,
        ImportError::IssueFailed { key, reason } => "failed to import issue "@ + key@ + ": "@
            + reason@,
    }
}

impl ImportError {
    /// Display text of the error.
    pub fn to_string(&self) -> (s: String)
        ensures
            s@ == import_error_text(*self),
    {
        match self {
            ImportError::Jira(j) => {
                let t = j.to_string();
                concat2("Jira error: ", t.as_str())
            },
            ImportError::EventStore(m) => concat2("event store error: ", m.as_str()),
            ImportError::IssueFailed { key, reason } => {
                let mut s = concat2("failed to import issue ", key.as_str());
                push_str(&mut s, ": ");
                push_str(&mut s, reason.as_str());
                s
            },
        }
    }
}

/// Body of a successful Jira import: the created task ids, in order.
#[derive(Debug, Clone)]
pub struct ImportResponse {
    pub imported: Vec<String>,
}

/// `v` is the JSON string `t`.
pub open spec fn is_json_string(v: JsonValue, t: Seq<char>) -> bool {
    v matches JsonValue::String(x) && x@ == t
}

/// `v` is the note describing an imported issue: the object with members
/// `source` = `"jira"`, `jira_key`, `jira_url`, `jira_status` (strings) and
/// `labels` (the array of the label strings), in that order.
pub open spec fn is_import_note(v: JsonValue, issue: JiraIssue) -> bool {
    match v {
        JsonValue::Object(m) => {
            &&& m@.len() == 5
            &&& m@[0].0@ == "source"@ && is_json_string(m@[0].1, "jira"@)
            &&& m@[1].0@ == "jira_key"@ && is_json_string(m@[1].1, issue.key@)
            &&& m@[2].0@ == "jira_url"@ && is_json_string(m@[2].1, issue.url@)
            &&& m@[3].0@ == "jira_status"@ && is_json_string(m@[3].1, issue.status@)
            &&& m@[4].0@ == "labels"@ && is_string_array(m@[4].1, issue.labels@)
        },
        _ => false,
    }
}

/// `v` is the array of the strings `items`, in order.
pub open spec fn is_string_array(v: JsonValue, items: Seq<String>) -> bool {
    match v {
        JsonValue::Array(a) => a@.len() == items.len() && forall|i: int|
            0 <= i < a@.len() ==> is_json_string(#[trigger] a@[i], items[i]@),
        _ => false,
    }
}

/// The note describing an imported issue (see [`is_import_note`]).
pub fn import_note(issue: &JiraIssue) -> (v: JsonValue)
    ensures
        is_import_note(v, *issue),
{
    let mut labels: Vec<JsonValue> = Vec::new();
    let mut i: usize = 0;
    while i < issue.labels.len()
        invariant
            i <= issue.labels.len(),
            labels@.len() == i,
            forall|j: int| 0 <= j < i ==> is_json_string(#[trigger] labels@[j], issue.labels@[j]@),
        decreases issue.labels.len() - i,
    {
        labels.push(JsonValue::String(issue.labels[i].clone()));
        i = i + 1;
    }
    let mut m: Vec<(String, JsonValue)> = Vec::new();
    m.push((string_from_literal("source"), JsonValue::String(string_from_literal("jira"))));
    m.push((string_from_literal("jira_key"), JsonValue::String(issue.key.clone())));
    m.push((string_from_literal("jira_url"), JsonValue::String(issue.url.clone())));
    m.push((string_from_literal("jira_status"), JsonValue::String(issue.status.clone())));
    m.push((string_from_literal("labels"), JsonValue::Array(labels)));
    JsonValue::Object(m)
}

/// The description stored for a task, empty when the issue has none.
pub open spec fn description_text(d: Option<String>) -> Seq<char> {
    match d {
        Some(s) => s@,
        None => Seq::empty(),
    }
}

/// The two events recorded when an issue is imported into `stage`: a
/// `TaskCreated` for a fresh task in the default project, then an agent
/// output caused by it that carries the import note.
pub fn new_jira_import_events(
    session_id: &str,
    issue: &JiraIssue,
    initial_stage: &str,
    board_id: Option<&str>,
) -> (r: Vec<EventEnvelope>)
    ensures
        r.len() == 2,
        r@[0].task_id is Some,
        r@[1].task_id is Some && r@[1].task_id->0@ == r@[0].task_id->0@,
        r@[0].project_id@ == "default"@ && r@[1].project_id@ == "default"@,
        r@[0].session_id@ == session_id@ && r@[1].session_id@ == session_id@,
        r@[0].caused_by is None,
        r@[1].caused_by is Some && r@[1].caused_by->0@ == r@[0].id@,
        r@[0].payload matches DomainEvent::TaskCreated {
            title,
            description,
            initial_stage: st,
            priority,
            board_id: b,
        } && title@ == issue.summary@ && description@ == description_text(issue.description)
            && st@ == import_stage(initial_stage@) && priority == jira_priority(
            match issue.priority {
                Some(p) => Some(p@),
                None => None,
            },
        ) && match board_id {
            Some(x) => b is Some && b->0@ == x@,
            None => b is None,
        },
        exists|note: JsonValue|
            is_import_note(note, *issue) && (r@[1].payload matches DomainEvent::AgentOutput {
                output,
                ..
            } && output@ == "Imported from Jira: "@ + json_text(note)),
{
    let task_id = fresh_ulid_string();
    let stage = import_stage_of(initial_stage);
    let description = match &issue.description {
        Some(d) => d.clone(),
        None => String::new(),
    };
    let priority = match &issue.priority {
        Some(p) => map_priority(Some(p.as_str())),
        None => map_priority(None),
    };
    let board = match board_id {
        Some(b) => Some(string_from_literal(b)),
        None => None,
    };
    let created_id = fresh_ulid_string();
    let created = EventEnvelope {
        id: created_id.clone(),
        task_id: Some(task_id.clone()),
        project_id: string_from_literal("default"),
        session_id: string_from_literal(session_id),
        timestamp: now_rfc3339(),
        caused_by: None,
        payload: DomainEvent::TaskCreated {
            title: issue.summary.clone(),
            description,
            initial_stage: stage,
            priority,
            board_id: board,
        },
    };
    let note = import_note(issue);
    let text = to_json_text(&note);
    let output = concat2("Imported from Jira: ", text.as_str());
    let imported = EventEnvelope {
        id: fresh_ulid_string(),
        task_id: Some(task_id),
        project_id: string_from_literal("default"),
        session_id: string_from_literal(session_id),
        timestamp: now_rfc3339(),
        caused_by: Some(created_id),
        payload: DomainEvent::AgentOutput { agent_id: fresh_ulid_string(), output },
    };
    let mut r: Vec<EventEnvelope> = Vec::new();
    r.push(created);
    r.push(imported);
    r
}

} // verus!
