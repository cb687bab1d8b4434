//! GitHub issue import: which requested issues are new, the events recorded
//! for each, and the answer the import endpoint gives.
//!
//! An issue is identified by `owner/repo#number`. Issues whose id was
//! already imported, or that occur earlier in the same request, are skipped,
//! so importing the same issues again records nothing new.

use vstd::prelude::*;

use super::github::{external_id_text, github_external_id, github_priority, issue_priority, GitHubIssue};
use crate::domain::{DomainEvent, EventEnvelope, Priority};
use crate::ids::{fresh_ulid_string, now_rfc3339};
use crate::text::{
    concat2, contains_str, decimal, has_text, push_str, str_eq, string_from_literal,
    u64_to_string,
};

verus! {

/// Project that imported GitHub tasks belong to.
pub const GITHUB_IMPORT_PROJECT_ID: &'static str = "default";

/// The set of texts held by `v`.
pub open spec fn text_set(v: Seq<String>) -> Set<Seq<char>> {
    Set::new(|t: Seq<char>| has_text(v, t))
}

/// The external id that `e` records as imported from GitHub, if any.
pub open spec fn github_import_of(e: EventEnvelope) -> Option<Seq<char>> {
    match e.payload {
        DomainEvent::TaskImported { source, external_id, .. } => if source@ == "github"@ {
            Some(external_id@)
        } else {
            None
        },
        _ => None,
    }
}

/// External ids of every GitHub issue already imported, read from the
/// project's events.
pub fn github_imported_external_ids(events: &Vec<EventEnvelope>) -> (ids: Vec<String>)
    ensures
        forall|t: Seq<char>|
            has_text(ids@, t) <==> exists|i: int|
                0 <= i < events.len() && #[trigger] github_import_of(events@[i]) == Some(t),
{
    let mut ids: Vec<String> = Vec::new();
    let mut i: usize = 0;
    while i < events.len()
        invariant
            i <= events.len(),
            forall|t: Seq<char>|
                has_text(ids@, t) <==> exists|j: int|
                    0 <= j < i && #[trigger] github_import_of(events@[j]) == Some(t),
        decreases events.len() - i,
    {
        let ghost old_ids = ids@;
        match &events[i].payload {
            DomainEvent::TaskImported { source, external_id, .. } => {
                if str_eq(source.as_str(), "github") {
                    ids.push(external_id.clone());
                    assert forall|t: Seq<char>| has_text(ids@, t) <==> (has_text(old_ids, t) || t
                        == external_id@) by {
                        if has_text(old_ids, t) {
                            let k = choose|k: int| 0 <= k < old_ids.len() && #[trigger] old_ids[k]@ == t;
                            assert(ids@[k] == old_ids[k]);
                        }
                        if t == external_id@ {
                            assert(ids@[old_ids.len() as int]@ == t);
                        }
                        if has_text(ids@, t) {
                            let k = choose|k: int| 0 <= k < ids@.len() && #[trigger] ids@[k]@ == t;
                            if k < old_ids.len() {
                                assert(old_ids[k]@ == t);
                            }
                        }
                    }
                }
            },
            _ => {},
        }
        assert(forall|t: Seq<char>| has_text(ids@, t) <==> (has_text(old_ids, t) || github_import_of(events@[i as int]) == Some(t)));
        assert forall|t: Seq<char>|
            has_text(ids@, t) <==> exists|j: int|
                0 <= j < i + 1 && #[trigger] github_import_of(events@[j]) == Some(t) by {
            if exists|j: int| 0 <= j < i + 1 && #[trigger] github_import_of(events@[j]) == Some(t) {
                let j = choose|j: int| 0 <= j < i + 1 && #[trigger] github_import_of(events@[j]) == Some(t);
                if j < i {
                    assert(exists|jj: int| 0 <= jj < i && #[trigger] github_import_of(events@[jj]) == Some(t));
                }
            }
            if has_text(old_ids, t) {
                let j = choose|j: int| 0 <= j < i && #[trigger] github_import_of(events@[j]) == Some(t);
                assert(0 <= j < i + 1);
            }
            if github_import_of(events@[i as int]) == Some(t) {
                assert(0 <= i < i + 1);
            }
        }
        i = i + 1;
    }
    ids
}

/// Which of `nums` are fetched, in order, and how many are skipped, when
/// the ids in `seen` are already imported: a number is skipped when its id
/// is in `seen` or belongs to a number fetched before it.
pub open spec fn plan_import(seen: Set<Seq<char>>, owner: Seq<char>, repo: Seq<char>, nums: Seq<i64>) -> (Seq<i64>, nat)
    decreases nums.len(),
{
    if nums.len() == 0 {
        (Seq::empty(), 0)
    } else {
        let id = external_id_text(owner, repo, nums[0]);
        if seen.contains(id) {
            let rest = plan_import(seen, owner, repo, nums.drop_first());
            (rest.0, rest.1 + 1)
        } else {
            let rest = plan_import(seen.insert(id), owner, repo, nums.drop_first());
            (seq![nums[0]] + rest.0, rest.1)
        }
    }
}

/// The issues an import request fetches, in request order, and how many it
/// skips as already imported.
#[derive(Debug, Clone)]
pub struct GithubImportPlan {
    pub to_fetch: Vec<i64>,
    pub skipped: usize,
}

/// Decide which requested issues a GitHub import fetches and records,
/// given the external ids imported before.
pub fn plan_github_import(seen: Vec<String>, owner: &str, repo: &str, issue_numbers: &Vec<i64>) -> (p: GithubImportPlan)
    ensures
        p.to_fetch@ == plan_import(text_set(seen@), owner@, repo@, issue_numbers@).0,
        p.skipped == plan_import(text_set(seen@), owner@, repo@, issue_numbers@).1,
{
    let ghost seen0 = text_set(seen@);
    let ghost nums = issue_numbers@;
    let mut cur = seen;
    let mut fetched: Vec<i64> = Vec::new();
    let mut skipped: usize = 0;
    let mut i: usize = 0;
    assert(nums.skip(0) =~= nums);
    assert(fetched@ + plan_import(seen0, owner@, repo@, nums).0 =~= plan_import(
        seen0,
        owner@,
        repo@,
        nums,
    ).0);
    while i < issue_numbers.len()
        invariant
            i <= issue_numbers.len(),
            nums == issue_numbers@,
            skipped <= i,
            plan_import(seen0, owner@, repo@, nums).0 == fetched@ + plan_import(
                text_set(cur@),
                owner@,
                repo@,
                nums.skip(i as int),
            ).0,
            plan_import(seen0, owner@, repo@, nums).1 == skipped + plan_import(
                text_set(cur@),
                owner@,
                repo@,
                nums.skip(i as int),
            ).1,
        decreases issue_numbers.len() - i,
    {
        let n = issue_numbers[i];
        let id = github_external_id(owner, repo, n);
        let ghost s = text_set(cur@);
        assert(nums.skip(i as int)[0] == n);
        assert(nums.skip(i as int).drop_first() == nums.skip(i + 1));
        let ghost rest_same = plan_import(s, owner@, repo@, nums.skip(i + 1));
        let ghost rest_ins = plan_import(s.insert(id@), owner@, repo@, nums.skip(i + 1));
        if contains_str(&cur, id.as_str()) {
            assert(s.contains(id@));
            skipped = skipped + 1;
        } else {
            assert(!s.contains(id@));
            let ghost old_cur = cur@;
            cur.push(id);
            assert(text_set(cur@) =~= s.insert(id@)) by {
                assert forall|t: Seq<char>| has_text(cur@, t) <==> (has_text(old_cur, t) || t
                    == id@) by {
                    if has_text(old_cur, t) {
                        let k = choose|k: int| 0 <= k < old_cur.len() && #[trigger] old_cur[k]@ == t;
                        assert(cur@[k] == old_cur[k]);
                    }
                    if t == id@ {
                        assert(cur@[old_cur.len() as int]@ == t);
                    }
                    if has_text(cur@, t) {
                        let k = choose|k: int| 0 <= k < cur@.len() && #[trigger] cur@[k]@ == t;
                        if k < old_cur.len() {
                            assert(old_cur[k]@ == t);
                        }
                    }
                }
            }
            let ghost before = fetched@;
            fetched.push(n);
            assert(before + (seq![n] + rest_ins.0) == fetched@ + rest_ins.0);
        }
        i = i + 1;
    }
    assert(nums.skip(nums.len() as int) =~= Seq::<i64>::empty());
    assert(fetched@ + Seq::<i64>::empty() == fetched@);
    GithubImportPlan { to_fetch: fetched, skipped }
}


/// Ids of the issue numbers in `f`.
pub open spec fn id_set(owner: Seq<char>, repo: Seq<char>, f: Seq<i64>) -> Set<Seq<char>> {
    Set::new(
        |t: Seq<char>| exists|j: int| 0 <= j < f.len() && #[trigger] external_id_text(owner, repo, f[j]) == t,
    )
}

/// Every requested issue is either fetched or counted as skipped.
pub proof fn law_import_plan_accounts_for_every_issue(
    seen: Set<Seq<char>>,
    owner: Seq<char>,
    repo: Seq<char>,
    nums: Seq<i64>,
)
    ensures
        plan_import(seen, owner, repo, nums).0.len() + plan_import(seen, owner, repo, nums).1
            == nums.len(),
    decreases nums.len(),
{
    if nums.len() > 0 {
        let id = external_id_text(owner, repo, nums[0]);
        law_import_plan_accounts_for_every_issue(seen, owner, repo, nums.drop_first());
        law_import_plan_accounts_for_every_issue(seen.insert(id), owner, repo, nums.drop_first());
    }
}

/// No fetched issue was imported before, and no two fetched issues share an
/// id: each issue is recorded at most once.
pub proof fn law_import_plan_fetches_only_new(
    seen: Set<Seq<char>>,
    owner: Seq<char>,
    repo: Seq<char>,
    nums: Seq<i64>,
)
    ensures
        forall|k: int|
            0 <= k < plan_import(seen, owner, repo, nums).0.len() ==> !seen.contains(
                external_id_text(owner, repo, #[trigger] plan_import(seen, owner, repo, nums).0[k]),
            ),
        forall|a: int, b: int|
            0 <= a < b < plan_import(seen, owner, repo, nums).0.len() ==> external_id_text(
                owner,
                repo,
                #[trigger] plan_import(seen, owner, repo, nums).0[a],
            ) != external_id_text(owner, repo, #[trigger] plan_import(seen, owner, repo, nums).0[b]),
    decreases nums.len(),
{
    if nums.len() > 0 {
        let id = external_id_text(owner, repo, nums[0]);
        let rest = nums.drop_first();
        if seen.contains(id) {
            law_import_plan_fetches_only_new(seen, owner, repo, rest);
            assert(plan_import(seen, owner, repo, nums).0 == plan_import(seen, owner, repo, rest).0);
        } else {
            law_import_plan_fetches_only_new(seen.insert(id), owner, repo, rest);
            let f = plan_import(seen, owner, repo, nums).0;
            let g = plan_import(seen.insert(id), owner, repo, rest).0;
            assert(f == seq![nums[0]] + g);
            assert forall|k: int| 0 <= k < f.len() implies !seen.contains(
                external_id_text(owner, repo, #[trigger] f[k]),
            ) by {
                if k > 0 {
                    assert(f[k] == g[k - 1]);
                }
            }
            assert forall|a: int, b: int| 0 <= a < b < f.len() implies external_id_text(
                owner,
                repo,
                #[trigger] f[a],
            ) != external_id_text(owner, repo, #[trigger] f[b]) by {
                assert(f[b] == g[b - 1]);
                if a > 0 {
                    assert(f[a] == g[a - 1]);
                } else {
                    assert(!seen.insert(id).contains(external_id_text(owner, repo, g[b - 1])));
                }
            }
        }
    }
}

proof fn lemma_plan_covers(seen: Set<Seq<char>>, owner: Seq<char>, repo: Seq<char>, nums: Seq<i64>)
    ensures
        forall|k: int|
            0 <= k < nums.len() ==> seen.union(
                id_set(owner, repo, plan_import(seen, owner, repo, nums).0),
            ).contains(external_id_text(owner, repo, #[trigger] nums[k])),
    decreases nums.len(),
{
    if nums.len() > 0 {
        let id = external_id_text(owner, repo, nums[0]);
        let rest = nums.drop_first();
        let f = plan_import(seen, owner, repo, nums).0;
        if seen.contains(id) {
            lemma_plan_covers(seen, owner, repo, rest);
            assert forall|k: int| 0 <= k < nums.len() implies seen.union(id_set(owner, repo, f)).contains(
                external_id_text(owner, repo, #[trigger] nums[k]),
            ) by {
                if k > 0 {
                    assert(nums[k] == rest[k - 1]);
                }
            }
        } else {
            lemma_plan_covers(seen.insert(id), owner, repo, rest);
            let g = plan_import(seen.insert(id), owner, repo, rest).0;
            assert(f == seq![nums[0]] + g);
            assert forall|k: int| 0 <= k < nums.len() implies seen.union(id_set(owner, repo, f)).contains(
                external_id_text(owner, repo, #[trigger] nums[k]),
            ) by {
                let t = external_id_text(owner, repo, nums[k]);
                if k == 0 {
                    assert(f[0] == nums[0]);
                    assert(id_set(owner, repo, f).contains(t));
                } else {
                    assert(nums[k] == rest[k - 1]);
                    assert(seen.insert(id).union(id_set(owner, repo, g)).contains(t));
                    if t == id {
                        assert(f[0] == nums[0]);
                        assert(id_set(owner, repo, f).contains(t));
                    } else if id_set(owner, repo, g).contains(t) {
                        let j = choose|j: int| 0 <= j < g.len() && #[trigger] external_id_text(owner, repo, g[j]) == t;
                        assert(f[j + 1] == g[j]);
                        assert(id_set(owner, repo, f).contains(t));
                    }
                }
            }
        }
    }
}

proof fn lemma_plan_all_seen(seen: Set<Seq<char>>, owner: Seq<char>, repo: Seq<char>, nums: Seq<i64>)
    requires
        forall|k: int| 0 <= k < nums.len() ==> seen.contains(external_id_text(owner, repo, #[trigger] nums[k])),
    ensures
        plan_import(seen, owner, repo, nums).0 == Seq::<i64>::empty(),
        plan_import(seen, owner, repo, nums).1 == nums.len(),
    decreases nums.len(),
{
    if nums.len() > 0 {
        let rest = nums.drop_first();
        assert(seen.contains(external_id_text(owner, repo, nums[0])));
        assert forall|k: int| 0 <= k < rest.len() implies seen.contains(
            external_id_text(owner, repo, #[trigger] rest[k]),
        ) by {
            assert(rest[k] == nums[k + 1]);
        }
        lemma_plan_all_seen(seen, owner, repo, rest);
    }
}

/// Importing the same issues again, once the first import is recorded,
/// fetches nothing and skips every issue.
pub proof fn law_reimport_fetches_nothing(
    seen: Set<Seq<char>>,
    owner: Seq<char>,
    repo: Seq<char>,
    nums: Seq<i64>,
)
    ensures
        ({
            let after = seen.union(id_set(owner, repo, plan_import(seen, owner, repo, nums).0));
            &&& plan_import(after, owner, repo, nums).0 == Seq::<i64>::empty()
            &&& plan_import(after, owner, repo, nums).1 == nums.len()
        }),
{
    lemma_plan_covers(seen, owner, repo, nums);
    let after = seen.union(id_set(owner, repo, plan_import(seen, owner, repo, nums).0));
    lemma_plan_all_seen(after, owner, repo, nums);
}

/// `body`, or empty text when absent.
pub open spec fn body_or_empty(body: Option<String>) -> Seq<char> {
    match body {
        Some(b) => b@,
        None => Seq::empty(),
    }
}

/// `e` is the `TaskCreated` event of an imported GitHub issue: task
/// `task_id` in the default project, title and body from the issue, stage
/// `triage`, priority from its labels, no board and no cause.
pub open spec fn is_github_created_event(
    e: EventEnvelope,
    task_id: Seq<char>,
    session_id: Seq<char>,
    issue: GitHubIssue,
) -> bool {
    &&& e.task_id is Some && e.task_id->0@ == task_id
    &&& e.project_id@ == GITHUB_IMPORT_PROJECT_ID@
    &&& e.session_id@ == session_id
    &&& e.caused_by is None
    &&& e.payload matches DomainEvent::TaskCreated {
        title,
        description,
        initial_stage,
        priority,
        board_id,
    } && title@ == issue.title@ && description@ == body_or_empty(issue.body)
        && initial_stage@ == "triage"@ && priority == issue_priority(issue.labels@)
        && board_id is None
}

/// `e` is the `TaskImported` event that follows it: same task, caused by
/// event `created_id`, source `github`, the issue's id and browser URL.
pub open spec fn is_github_imported_event(
    e: EventEnvelope,
    task_id: Seq<char>,
    session_id: Seq<char>,
    created_id: Seq<char>,
    external_id: Seq<char>,
    issue: GitHubIssue,
) -> bool {
    &&& e.task_id is Some && e.task_id->0@ == task_id
    &&& e.project_id@ == GITHUB_IMPORT_PROJECT_ID@
    &&& e.session_id@ == session_id
    &&& e.caused_by is Some && e.caused_by->0@ == created_id
    &&& e.payload matches DomainEvent::TaskImported { source, external_id: x, external_url } && source@
        == "github"@ && x@ == external_id && external_url@ == issue.html_url@
}

/// The two events recorded for a newly imported issue, with the given ids
/// and times: `TaskCreated`, then `TaskImported` caused by it.
pub fn github_import_events(
    task_id: String,
    created_event_id: String,
    imported_event_id: String,
    session_id: &str,
    created_at: String,
    imported_at: String,
    issue: &GitHubIssue,
    external_id: &str,
) -> (r: Vec<EventEnvelope>)
    ensures
        r.len() == 2,
        is_github_created_event(r@[0], task_id@, session_id@, *issue),
        r@[0].id@ == created_event_id@,
        r@[0].timestamp@ == created_at@,
        is_github_imported_event(r@[1], task_id@, session_id@, created_event_id@, external_id@, *issue),
        r@[1].id@ == imported_event_id@,
        r@[1].timestamp@ == imported_at@,
{
    let description = match &issue.body {
        Some(b) => b.clone(),
        None => String::new(),
    };
    let created = EventEnvelope {
        id: created_event_id.clone(),
        task_id: Some(task_id.clone()),
        project_id: string_from_literal(GITHUB_IMPORT_PROJECT_ID),
        session_id: string_from_literal(session_id),
        timestamp: created_at,
        caused_by: None,
        payload: DomainEvent::TaskCreated {
            title: issue.title.clone(),
            description,
            initial_stage: string_from_literal("triage"),
            priority: github_priority(issue),
            board_id: None,
        },
    };
    let imported = EventEnvelope {
        id: imported_event_id,
        task_id: Some(task_id),
        project_id: string_from_literal(GITHUB_IMPORT_PROJECT_ID),
        session_id: string_from_literal(session_id),
        timestamp: imported_at,
        caused_by: Some(created_event_id),
        payload: DomainEvent::TaskImported {
            source: string_from_literal("github"),
            external_id: string_from_literal(external_id),
            external_url: issue.html_url.clone(),
        },
    };
    let mut r: Vec<EventEnvelope> = Vec::new();
    r.push(created);
    r.push(imported);
    r
}

/// The two events recorded for a newly imported issue, with a fresh task
/// id, fresh event ids and the current time.
pub fn new_github_import_events(session_id: &str, issue: &GitHubIssue, external_id: &str) -> (r: Vec<
    EventEnvelope,
>)
    ensures
        r.len() == 2,
        r@[0].task_id is Some,
        is_github_created_event(r@[0], r@[0].task_id->0@, session_id@, *issue),
        is_github_imported_event(
            r@[1],
            r@[0].task_id->0@,
            session_id@,
            r@[0].id@,
            external_id@,
            *issue,
        ),
{
    let task_id = fresh_ulid_string();
    let created_id = fresh_ulid_string();
    let created_at = now_rfc3339();
    let imported_id = fresh_ulid_string();
    let imported_at = now_rfc3339();
    github_import_events(
        task_id,
        created_id,
        imported_id,
        session_id,
        created_at,
        imported_at,
        issue,
        external_id,
    )
}

/// Body of the import endpoint's answer.
#[derive(Debug, Clone)]
pub struct ImportResponse {
    /// Issues processed: new imports plus idempotent skips.
    pub imported: usize,
    pub message: String,
}

/// Message of a finished import of `new_count` new and `skipped` known
/// issues from `owner/repo`.
pub open spec fn import_message(new_count: nat, skipped: nat, owner: Seq<char>, repo: Seq<char>) -> Seq<char> {
    if skipped == 0 {
        "Imported "@ + decimal(new_count) + " issue(s) from "@ + owner + "/"@ + repo + "."@
    } else if new_count == 0 {
        "All "@ + decimal(skipped) + " issue(s) from "@ + owner + "/"@ + repo
            + " were already imported."@
    } else {
        "Imported "@ + decimal(new_count) + " new issue(s) from "@ + owner + "/"@ + repo + "; "@
            + decimal(skipped) + " already in hub."@
    }
}

/// Answer to a finished import: the number of issues processed and a
/// message naming how many were new and how many already imported.
pub fn github_import_response(new_count: usize, skipped: usize, owner: &str, repo: &str) -> (r: ImportResponse)
    requires
        new_count + skipped <= usize::MAX,
    ensures
        r.imported == new_count + skipped,
        r.message@ == import_message(new_count as nat, skipped as nat, owner@, repo@),
{
    let n = u64_to_string(new_count as u64);
    let k = u64_to_string(skipped as u64);
    let message = if skipped == 0 {
        let mut m = concat2("Imported ", n.as_str());
        push_str(&mut m, " issue(s) from ");
        push_str(&mut m, owner);
        push_str(&mut m, "/");
        push_str(&mut m, repo);
        push_str(&mut m, ".");
        m
    } else if new_count == 0 {
        let mut m = concat2("All ", k.as_str());
        push_str(&mut m, " issue(s) from ");
        push_str(&mut m, owner);
        push_str(&mut m, "/");
        push_str(&mut m, repo);
        push_str(&mut m, " were already imported.");
        m
    } else {
        let mut m = concat2("Imported ", n.as_str());
        push_str(&mut m, " new issue(s) from ");
        push_str(&mut m, owner);
        push_str(&mut m, "/");
        push_str(&mut m, repo);
        push_str(&mut m, "; ");
        push_str(&mut m, k.as_str());
        push_str(&mut m, " already in hub.");
        m
    };
    ImportResponse { imported: new_count + skipped, message }
}

/// Answer to an import request that selects no issues.
pub fn empty_import_response() -> (r: ImportResponse)
    ensures
        r.imported == 0,
        r.message@ == "No issues selected."@,
{
    ImportResponse { imported: 0, message: string_from_literal("No issues selected.") }
}

} // verus!
