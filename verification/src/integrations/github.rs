//! GitHub REST types, error reporting, the issue search query the UI sends,
//! and how an issue's labels set a task's priority.

use vstd::prelude::*;

use crate::domain::Priority;
use crate::text::{
    chars_of, string_from_slice, concat2, decimal, i64_to_string, push_char, push_str, signed_decimal, str_eq,
    string_from_literal, trim, trim_str, u64_to_string,
};

verus! {

/// A label on a GitHub issue.
#[derive(Debug, Clone)]
pub struct GitHubLabel {
    pub name: String,
}

/// A GitHub issue as the REST API returns it.
#[derive(Debug, Clone)]
pub struct GitHubIssue {
    pub number: i64,
    pub title: String,
    /// `"open"` or `"closed"`.
    pub state: String,
    pub body: Option<String>,
    pub html_url: String,
    pub labels: Vec<GitHubLabel>,
}

/// A GitHub repository as the REST API returns it.
#[derive(Debug, Clone)]
pub struct GitHubRepo {
    /// `"owner/repo"`.
    pub full_name: String,
    pub description: Option<String>,
    pub html_url: String,
}

/// Errors of GitHub REST calls. A transport failure carries the HTTP
/// client's message.
#[derive(Debug, Clone)]
pub enum GitHubError {
    HttpError(String),
    AuthError { status: u16 },
    ParseError(String),
    ApiError { status: u16, message: String },
    NotFound { repo: String, number: i64 },
}

/// Display text of a [`GitHubError`].
pub open spec fn github_error_text(e: GitHubError) -> Seq<char> {
    match e {
        GitHubError::HttpError(m) => "HTTP error: "@ + m@,
        GitHubError::AuthError { status } => "authentication failed (HTTP "@ + decimal(
            status as nat,
        ) + ")"@,
        GitHubError::ParseError(m) => "parse error: "@ + m@,
        GitHubError::ApiError { status, message } => "GitHub API error (HTTP "@ + decimal(
            status as nat,
        ) + "): "@ + message@,
        GitHubError::NotFound { repo, number } => "issue not found: "@ + repo@ + "#"@
            + signed_decimal(number as int),
    }
}

impl GitHubError {
    /// Display text of the error.
    pub fn to_string(&self) -> (s: String)
        ensures
            s@ == github_error_text(*self),
    {
        match self {
            GitHubError::HttpError(m) => concat2("HTTP error: ", m.as_str()),
            GitHubError::AuthError { status } => {
                let d = u64_to_string(*status as u64);
                let mut s = concat2("authentication failed (HTTP ", d.as_str());
                push_str(&mut s, ")");
                s
            },
            GitHubError::ParseError(m) => concat2("parse error: ", m.as_str()),
            GitHubError::ApiError { status, message } => {
                let d = u64_to_string(*status as u64);
                let mut s = concat2("GitHub API error (HTTP ", d.as_str());
                push_str(&mut s, "): ");
                push_str(&mut s, message.as_str());
                s
            },
            GitHubError::NotFound { repo, number } => {
                let mut s = concat2("issue not found: ", repo.as_str());
                push_str(&mut s, "#");
                let d = i64_to_string(*number);
                push_str(&mut s, d.as_str());
                s
            },
        }
    }
}

/// HTTP status a handler answers with for a GitHub error: 401 for
/// authentication, 404 for a missing issue, 502 for transport failures,
/// 500 for unreadable responses, and for an API error its own status when
/// that is a client error (4xx), else 502.
pub open spec fn github_error_status(e: GitHubError) -> u16 {
    match e {
        GitHubError::AuthError { .. } => 401,
        GitHubError::NotFound { .. } => 404,
        GitHubError::HttpError(_) => 502,
        GitHubError::ParseError(_) => 500,
        GitHubError::ApiError { status, .. } => if 400 <= status && status <= 499 {
            status
        } else {
            502
        },
    }
}

/// Status and message a handler answers with for a GitHub error; the
/// message is the error's display text, or the API's own message for an
/// API error.
pub fn github_error_to_http(e: &GitHubError) -> (r: (u16, String))
    ensures
        r.0 == github_error_status(*e),
        match e {
            GitHubError::ApiError { message, .. } => r.1@ == message@,
            _ => r.1@ == github_error_text(*e),
        },
{
    match e {
        GitHubError::AuthError { .. } => (401, e.to_string()),
        GitHubError::NotFound { .. } => (404, e.to_string()),
        GitHubError::HttpError(_) => (502, e.to_string()),
        GitHubError::ParseError(_) => (500, e.to_string()),
        GitHubError::ApiError { status, message } => {
            let code = if 400 <= *status && *status <= 499 {
                *status
            } else {
                502
            };
            (code, message.clone())
        },
    }
}

/// Where and as whom GitHub REST calls are made.
#[derive(Debug, Clone, PartialEq, Eq)]
pub struct GitHubClient {
    /// OAuth, personal or installation access token, sent as a Bearer token.
    pub token: String,
    /// API root, `https://api.github.com` unless overridden.
    pub base_url: String,
}

impl GitHubClient {
    /// Client for the public API, authenticating with `token`.
    pub fn new(token: String) -> (c: Self)
        ensures
            c.token == token,
            c.base_url@ == "https://api.github.com"@,
    {
        GitHubClient { token, base_url: string_from_literal("https://api.github.com") }
    }

    /// Client for another API root (a test server).
    pub fn with_base_url(token: String, base_url: String) -> (c: Self)
        ensures
            c.token == token,
            c.base_url == base_url,
    {
        GitHubClient { token, base_url }
    }

    /// Bearer token sent to the API.
    pub fn token(&self) -> (t: &str)
        ensures
            t@ == self.token@,
    {
        self.token.as_str()
    }

    /// URL of `GET /user/repos`.
    pub fn repos_url(&self) -> (u: String)
        ensures
            u@ == self.base_url@ + "/user/repos"@,
    {
        concat2(self.base_url.as_str(), "/user/repos")
    }

    /// URL of `GET /user`.
    pub fn user_url(&self) -> (u: String)
        ensures
            u@ == self.base_url@ + "/user"@,
    {
        concat2(self.base_url.as_str(), "/user")
    }

    /// URL of `GET /search/issues`.
    pub fn search_url(&self) -> (u: String)
        ensures
            u@ == self.base_url@ + "/search/issues"@,
    {
        concat2(self.base_url.as_str(), "/search/issues")
    }

    /// URL of `GET /repos/{owner}/{repo}/issues/{number}`.
    pub fn issue_url(&self, owner: &str, repo: &str, number: i64) -> (u: String)
        ensures
            u@ == self.base_url@ + "/repos/"@ + owner@ + "/"@ + repo@ + "/issues/"@
                + signed_decimal(number as int),
    {
        let mut u = concat2(self.base_url.as_str(), "/repos/");
        push_str(&mut u, owner);
        push_str(&mut u, "/");
        push_str(&mut u, repo);
        push_str(&mut u, "/issues/");
        let n = i64_to_string(number);
        push_str(&mut u, n.as_str());
        u
    }
}

/// Search text sent for an issue search in one repository:
/// `repo:{owner}/{repo} {query}`.
pub open spec fn repo_search_text(owner: Seq<char>, repo: Seq<char>, query: Seq<char>) -> Seq<char> {
    "repo:"@ + owner + "/"@ + repo + " "@ + query
}

/// The `q` parameter of `GET /search/issues` for a repository.
pub fn repo_search_query(owner: &str, repo: &str, query: &str) -> (q: String)
    ensures
        q@ == repo_search_text(owner@, repo@, query@),
{
    let mut q = concat2("repo:", owner);
    push_str(&mut q, "/");
    push_str(&mut q, repo);
    push_str(&mut q, " ");
    push_str(&mut q, query);
    q
}

/// A response status that means the token was refused: 401 or 403 give
/// `AuthError`, any other status passes.
pub fn check_auth(status: u16) -> (r: Result<(), GitHubError>)
    ensures
        (status == 401 || status == 403) ==> (r matches Err(GitHubError::AuthError { status: s })
            && s == status),
        !(status == 401 || status == 403) ==> r is Ok,
{
    if status == 401 || status == 403 {
        Err(GitHubError::AuthError { status })
    } else {
        Ok(())
    }
}

/// Message of a GitHub error response: the `message` field of its JSON
/// body when present and non-empty, else the body trimmed, cut to its
/// first 200 characters.
pub open spec fn api_message(parsed: Option<Seq<char>>, body: Seq<char>) -> Seq<char> {
    match parsed {
        Some(m) if m.len() > 0 => m,
        _ => if trim(body).len() <= 200 {
            trim(body)
        } else {
            trim(body).take(200)
        },
    }
}

/// The message of a GitHub error response, from the `message` field its
/// JSON body parsed to (if any) and its text.
pub fn github_api_message(parsed: Option<&str>, body: &str) -> (m: String)
    ensures
        m@ == api_message(
            match parsed {
                Some(p) => Some(p@),
                None => None,
            },
            body@,
        ),
{
    if let Some(p) = parsed {
        if !p.is_empty() {
            return string_from_literal(p);
        }
    }
    let t = trim_str(body);
    let cs = chars_of(t.as_str());
    if cs.len() <= 200 {
        t
    } else {
        let r = string_from_slice(&cs, 0, 200);
        assert(cs@.subrange(0, 200) =~= trim(body@).take(200));
        r
    }
}

/// The error a response with `status` means once its body is read: a
/// non-success status (outside 200..=299) is an `ApiError` with the body's
/// message, a success none.
pub fn api_error(status: u16, parsed: Option<&str>, body: &str) -> (r: Option<GitHubError>)
    ensures
        (200 <= status && status <= 299) ==> r is None,
        !(200 <= status && status <= 299) ==> (r matches Some(
            GitHubError::ApiError { status: s, message },
        ) && s == status && message@ == api_message(
            match parsed {
                Some(p) => Some(p@),
                None => None,
            },
            body@,
        )),
{
    if 200 <= status && status <= 299 {
        None
    } else {
        Some(GitHubError::ApiError { status, message: github_api_message(parsed, body) })
    }
}

/// The error for an issue the repository does not have (a 404 on
/// `GET /repos/{owner}/{repo}/issues/{number}`).
pub fn issue_not_found(owner: &str, repo: &str, number: i64) -> (e: GitHubError)
    ensures
        e matches GitHubError::NotFound { repo: r, number: n } && r@ == owner@ + "/"@ + repo@ && n
            == number,
{
    let mut r = concat2(owner, "/");
    push_str(&mut r, repo);
    GitHubError::NotFound { repo: r, number }
}

/// Issue row shape the web UI expects.
#[derive(Debug, Clone)]
pub struct GitHubIssueUi {
    pub number: i64,
    pub title: String,
    pub state: String,
    pub labels: Vec<String>,
}

/// The UI row of an issue: its number, title, state and label names in order.
pub fn issue_to_ui(issue: GitHubIssue) -> (r: GitHubIssueUi)
    ensures
        r.number == issue.number,
        r.title@ == issue.title@,
        r.state@ == issue.state@,
        r.labels.len() == issue.labels.len(),
        forall|i: int| 0 <= i < r.labels.len() ==> #[trigger] r.labels@[i]@ == issue.labels@[i].name@,
{
    let mut labels: Vec<String> = Vec::new();
    let mut i: usize = 0;
    while i < issue.labels.len()
        invariant
            i <= issue.labels.len(),
            labels.len() == i,
            forall|j: int| 0 <= j < i ==> #[trigger] labels@[j]@ == issue.labels@[j].name@,
        decreases issue.labels.len() - i,
    {
        labels.push(issue.labels[i].name.clone());
        i = i + 1;
    }
    GitHubIssueUi { number: issue.number, title: issue.title, state: issue.state, labels }
}

/// Issue state filter used when the UI gives none.
pub fn default_issue_state_filter() -> (s: String)
    ensures
        s@ == "open"@,
{
    string_from_literal("open")
}

/// The pieces of `s` between commas, as `str::split(',')` yields them
/// (an empty text gives one empty piece).
pub open spec fn split_commas(s: Seq<char>) -> Seq<Seq<char>>
    decreases s.len(),
{
    if s.len() == 0 {
        seq![Seq::empty()]
    } else {
        let prev = split_commas(s.drop_last());
        if s.last() == ',' {
            prev.push(Seq::empty())
        } else {
            prev.update(prev.len() - 1, prev.last().push(s.last()))
        }
    }
}

/// `label:<name>` for each piece that is not blank once trimmed.
pub open spec fn label_terms(pieces: Seq<Seq<char>>) -> Seq<Seq<char>>
    decreases pieces.len(),
{
    if pieces.len() == 0 {
        Seq::empty()
    } else {
        let rest = label_terms(pieces.drop_last());
        let t = trim(pieces.last());
        if t.len() > 0 {
            rest.push("label:"@ + t)
        } else {
            rest
        }
    }
}

/// The state qualifier: `is:closed` for `closed`, none for `all`, else `is:open`.
pub open spec fn state_terms(state_filter: Seq<char>) -> Seq<Seq<char>> {
    if state_filter == "closed"@ {
        seq!["is:closed"@]
    } else if state_filter == "all"@ {
        Seq::empty()
    } else {
        seq!["is:open"@]
    }
}

/// `parts` joined with single spaces.
pub open spec fn join_spaces(parts: Seq<Seq<char>>) -> Seq<char>
    decreases parts.len(),
{
    if parts.len() == 0 {
        Seq::empty()
    } else if parts.len() == 1 {
        parts[0]
    } else {
        join_spaces(parts.drop_last()) + seq![' '] + parts.last()
    }
}

/// The views of a vector of strings.
pub open spec fn texts(v: Seq<String>) -> Seq<Seq<char>> {
    v.map_values(|s: String| s@)
}

fn split_on_commas(s: &str) -> (r: Vec<String>)
    ensures
        texts(r@) == split_commas(s@),
{
    let cs = crate::text::chars_of(s);
    let mut done: Vec<String> = Vec::new();
    let mut cur = String::new();
    let mut i: usize = 0;
    while i < cs.len()
        invariant
            i <= cs.len(),
            cs@ == s@,
            split_commas(cs@.take(i as int)) == texts(done@).push(cur@),
        decreases cs.len() - i,
    {
        let c = cs[i];
        let ghost before = texts(done@).push(cur@);
        assert(cs@.take(i + 1).drop_last() == cs@.take(i as int));
        if c == ',' {
            done.push(cur);
            cur = String::new();
            assert(texts(done@) == before);
        } else {
            push_char(&mut cur, c);
            assert(texts(done@).push(cur@) == before.update(before.len() - 1, before.last().push(c)));
        }
        i = i + 1;
    }
    assert(cs@.take(cs.len() as int) == cs@);
    done.push(cur);
    r_of(done)
}

fn r_of(v: Vec<String>) -> (r: Vec<String>)
    ensures
        r@ == v@,
{
    v
}

fn join_with_spaces(parts: &Vec<String>) -> (s: String)
    ensures
        s@ == join_spaces(texts(parts@)),
{
    let mut s = String::new();
    let mut i: usize = 0;
    while i < parts.len()
        invariant
            i <= parts.len(),
            s@ == join_spaces(texts(parts@.take(i as int))),
        decreases parts.len() - i,
    {
        if i > 0 {
            push_char(&mut s, ' ');
        }
        push_str(&mut s, parts[i].as_str());
        i = i + 1;
        assert(texts(parts@.take(i as int)).drop_last() == texts(parts@.take(i - 1)));
    }
    assert(parts@.take(parts.len() as int) == parts@);
    s
}

/// GitHub search qualifiers for the UI's issue list: the state qualifier,
/// then `label:<name>` for each non-blank comma-separated label, joined with
/// spaces.
pub fn build_github_search_q(state_filter: &str, labels_csv: &str) -> (q: String)
    ensures
        q@ == join_spaces(state_terms(state_filter@) + label_terms(split_commas(labels_csv@))),
{
    let mut parts: Vec<String> = Vec::new();
    if str_eq(state_filter, "closed") {
        parts.push(string_from_literal("is:closed"));
    } else if str_eq(state_filter, "all") {
    } else {
        parts.push(string_from_literal("is:open"));
    }
    let ghost head = texts(parts@);
    assert(head == state_terms(state_filter@));
    let pieces = split_on_commas(labels_csv);
    let mut j: usize = 0;
    while j < pieces.len()
        invariant
            j <= pieces.len(),
            texts(parts@) == head + label_terms(texts(pieces@.take(j as int))),
        decreases pieces.len() - j,
    {
        let t = trim_str(pieces[j].as_str());
        let ghost before = texts(parts@);
        assert(texts(pieces@.take(j + 1)).drop_last() == texts(pieces@.take(j as int)));
        assert(texts(pieces@.take(j + 1)).last() == pieces@[j as int]@);
        if !t.as_str().is_empty() {
            let term = concat2("label:", t.as_str());
            parts.push(term);
            assert(texts(parts@) == before.push("label:"@ + t@));
        }
        j = j + 1;
    }
    assert(pieces@.take(pieces.len() as int) == pieces@);
    join_with_spaces(&parts)
}

/// Query of `GET /api/integrations/github/search`.
#[derive(Debug, Clone, PartialEq, Eq)]
pub struct SearchQuery {
    /// Repository owner (user or org).
    pub owner: String,
    /// Repository name.
    pub repo: String,
    /// Free-text search query.
    pub q: String,
    /// Optional monitored project ULID, selecting per-project tokens.
    pub project_id: Option<String>,
}

/// Query of `GET /api/integrations/github/issues`.
#[derive(Debug, Clone, PartialEq, Eq)]
pub struct IssuesQuery {
    pub owner: String,
    pub repo: String,
    /// `open`, `closed`, or `all` (default `open`).
    pub state: String,
    /// Comma-separated label names.
    pub labels: String,
    pub project_id: Option<String>,
}

impl IssuesQuery {
    /// The search qualifiers the issue list sends (see
    /// [`build_github_search_q`]).
    pub fn search_q(&self) -> (q: String)
        ensures
            q@ == join_spaces(state_terms(self.state@) + label_terms(split_commas(self.labels@))),
    {
        build_github_search_q(self.state.as_str(), self.labels.as_str())
    }
}

/// Body of `POST /api/integrations/github/import`.
#[derive(Debug, Clone, PartialEq, Eq)]
pub struct ImportRequest {
    /// Repository owner.
    pub owner: String,
    /// Repository name.
    pub repo: String,
    /// Issue numbers to import.
    pub issues: Vec<i64>,
    pub project_id: Option<String>,
}

/// Priority rank a label stands for: 0 for critical/blocker labels, 1 for
/// high, 3 for low, none (`-1`) otherwise.
pub open spec fn label_rank(t: Seq<char>) -> int {
    if t == "priority:critical"@ || t == "priority:blocker"@ || t == "P0"@ || t == "p0"@ || t
        == "critical"@ || t == "blocker"@ {
        0
    } else if t == "priority:high"@ || t == "P1"@ || t == "p1"@ || t == "high"@ {
        1
    } else if t == "priority:low"@ || t == "P3"@ || t == "p3"@ || t == "low"@ {
        3
    } else {
        -1
    }
}

fn label_rank_of(t: &str) -> (r: i8)
    ensures
        r == label_rank(t@),
{
    proof {
        reveal_strlit("priority:critical");
        reveal_strlit("priority:blocker");
        reveal_strlit("P0");
        reveal_strlit("p0");
        reveal_strlit("critical");
        reveal_strlit("blocker");
        reveal_strlit("priority:high");
        reveal_strlit("P1");
        reveal_strlit("p1");
        reveal_strlit("high");
        reveal_strlit("priority:low");
        reveal_strlit("P3");
        reveal_strlit("p3");
        reveal_strlit("low");
    }
    if str_eq(t, "priority:critical") || str_eq(t, "priority:blocker") || str_eq(t, "P0")
        || str_eq(t, "p0") || str_eq(t, "critical") || str_eq(t, "blocker") {
        0
    } else if str_eq(t, "priority:high") || str_eq(t, "P1") || str_eq(t, "p1") || str_eq(
        t,
        "high",
    ) {
        1
    } else if str_eq(t, "priority:low") || str_eq(t, "P3") || str_eq(t, "p3") || str_eq(
        t,
        "low",
    ) {
        3
    } else {
        -1
    }
}

/// Some label of `labels` has rank `k`.
pub open spec fn has_label_rank(labels: Seq<GitHubLabel>, k: int) -> bool {
    exists|i: int| 0 <= i < labels.len() && label_rank(#[trigger] labels[i].name@) == k
}

/// Task priority of an imported issue: P0 if any label marks it critical
/// or blocking, else P1 if any marks it high, else P3 if any marks it low,
/// else P2.
pub open spec fn issue_priority(labels: Seq<GitHubLabel>) -> Priority {
    if has_label_rank(labels, 0) {
        Priority::P0
    } else if has_label_rank(labels, 1) {
        Priority::P1
    } else if has_label_rank(labels, 3) {
        Priority::P3
    } else {
        Priority::P2
    }
}

/// A critical or blocking label: `priority:critical`, `priority:blocker`,
/// `P0`, `p0`, `critical` or `blocker`.
pub open spec fn names_critical(t: Seq<char>) -> bool {
    ||| t == "priority:critical"@
    ||| t == "priority:blocker"@
    ||| t == "P0"@
    ||| t == "p0"@
    ||| t == "critical"@
    ||| t == "blocker"@
}

/// A high-priority label: `priority:high`, `P1`, `p1` or `high`.
pub open spec fn names_high(t: Seq<char>) -> bool {
    ||| t == "priority:high"@
    ||| t == "P1"@
    ||| t == "p1"@
    ||| t == "high"@
}

/// A low-priority label: `priority:low`, `P3`, `p3` or `low`.
pub open spec fn names_low(t: Seq<char>) -> bool {
    ||| t == "priority:low"@
    ||| t == "P3"@
    ||| t == "p3"@
    ||| t == "low"@
}

/// An issue with a critical or blocking label is imported as P0, whatever
/// its other labels.
pub proof fn law_critical_label_gives_p0(labels: Seq<GitHubLabel>, i: int)
    requires
        0 <= i < labels.len(),
        names_critical(labels[i].name@),
    ensures
        issue_priority(labels) == Priority::P0,
{
    assert(label_rank(labels[i].name@) == 0);
}

/// Without a critical label, a high-priority label makes the issue P1.
pub proof fn law_high_label_gives_p1(labels: Seq<GitHubLabel>, i: int)
    requires
        0 <= i < labels.len(),
        names_high(labels[i].name@),
        forall|j: int| 0 <= j < labels.len() ==> !names_critical(#[trigger] labels[j].name@),
    ensures
        issue_priority(labels) == Priority::P1,
{
    assert(label_rank(labels[i].name@) == 1);
}

/// Without a critical or high label, a low-priority label makes the issue P3.
pub proof fn law_low_label_gives_p3(labels: Seq<GitHubLabel>, i: int)
    requires
        0 <= i < labels.len(),
        names_low(labels[i].name@),
        forall|j: int|
            0 <= j < labels.len() ==> !names_critical(#[trigger] labels[j].name@) && !names_high(
                labels[j].name@,
            ),
    ensures
        issue_priority(labels) == Priority::P3,
{
    assert(label_rank(labels[i].name@) == 3);
}

/// An issue with no priority label at all is imported as P2.
pub proof fn law_unlabelled_gives_p2(labels: Seq<GitHubLabel>)
    requires
        forall|j: int|
            0 <= j < labels.len() ==> !names_critical(#[trigger] labels[j].name@) && !names_high(
                labels[j].name@,
            ) && !names_low(labels[j].name@),
    ensures
        issue_priority(labels) == Priority::P2,
{
}

/// Task priority for an imported issue, from its labels.
pub fn github_priority(issue: &GitHubIssue) -> (p: Priority)
    ensures
        p == issue_priority(issue.labels@),
{
    let mut has0 = false;
    let mut has1 = false;
    let mut has3 = false;
    let mut i: usize = 0;
    while i < issue.labels.len()
        invariant
            i <= issue.labels.len(),
            has0 == exists|j: int| 0 <= j < i && label_rank(#[trigger] issue.labels@[j].name@) == 0,
            has1 == exists|j: int| 0 <= j < i && label_rank(#[trigger] issue.labels@[j].name@) == 1,
            has3 == exists|j: int| 0 <= j < i && label_rank(#[trigger] issue.labels@[j].name@) == 3,
        decreases issue.labels.len() - i,
    {
        let r = label_rank_of(issue.labels[i].name.as_str());
        if r == 0 {
            has0 = true;
        } else if r == 1 {
            has1 = true;
        } else if r == 3 {
            has3 = true;
        }
        i = i + 1;
    }
    if has0 {
        Priority::P0
    } else if has1 {
        Priority::P1
    } else if has3 {
        Priority::P3
    } else {
        Priority::P2
    }
}

/// Idempotency key of a GitHub issue: `owner/repo#number`.
pub open spec fn external_id_text(owner: Seq<char>, repo: Seq<char>, number: i64) -> Seq<char> {
    owner + "/"@ + repo + "#"@ + signed_decimal(number as int)
}

/// Stable id for idempotent imports (`owner/repo#number`).
pub fn github_external_id(owner: &str, repo: &str, number: i64) -> (s: String)
    ensures
        s@ == external_id_text(owner@, repo@, number),
{
    let mut s = concat2(owner, "/");
    push_str(&mut s, repo);
    push_str(&mut s, "#");
    let d = i64_to_string(number);
    push_str(&mut s, d.as_str());
    s
}

} // verus!
