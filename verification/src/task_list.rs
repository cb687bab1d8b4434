//! The plain task list (`GET /api/tasks`): events grouped by task, with a
//! count, the time of the latest event and the title of the latest
//! `TaskCreated`, most recently active first.

use vstd::prelude::*;

use crate::domain::{DomainEvent, EventEnvelope};
use crate::projection::opt_view;
use crate::text::{lemma_lex_asymmetric, lemma_lex_total, lemma_lex_transitive, lex_lt, str_eq, str_lex_lt};

verus! {

/// A lightweight task summary derived from events.
#[derive(Debug, Clone, PartialEq, Eq)]
pub struct TaskSummary {
    pub task_id: String,
    pub title: Option<String>,
    pub event_count: usize,
    pub last_event_at: Option<String>,
}

/// Mathematical content of a [`TaskSummary`] (without its key).
pub struct SummaryView {
    pub title: Option<Seq<char>>,
    pub event_count: nat,
    pub last_event_at: Option<Seq<char>>,
}

impl View for TaskSummary {
    type V = SummaryView;

    open spec fn view(&self) -> SummaryView {
        SummaryView {
            title: opt_view(self.title),
            event_count: self.event_count as nat,
            last_event_at: opt_view(self.last_event_at),
        }
    }
}

/// The key an event is grouped under: its task id, or its project id when
/// it belongs to no task.
pub open spec fn summary_key(e: EventEnvelope) -> Seq<char> {
    match e.task_id {
        Some(t) => t@,
        None => e.project_id@,
    }
}

/// Keys of `log`, in order of first appearance.
pub open spec fn summary_keys(log: Seq<EventEnvelope>) -> Seq<Seq<char>>
    decreases log.len(),
{
    if log.len() == 0 {
        Seq::empty()
    } else {
        let ks = summary_keys(log.drop_last());
        let k = summary_key(log.last());
        if ks.contains(k) {
            ks
        } else {
            ks.push(k)
        }
    }
}

/// Summary of a group before any of its events.
pub open spec fn summary_init() -> SummaryView {
    SummaryView { title: None, event_count: 0, last_event_at: None }
}

/// Effect of one event on its group's summary: one more event, the latest
/// time is the event's, and a `TaskCreated` sets the title.
pub open spec fn summary_step(s: SummaryView, e: EventEnvelope) -> SummaryView {
    SummaryView {
        title: match e.payload {
            DomainEvent::TaskCreated { title, .. } => Some(title@),
            _ => s.title,
        },
        event_count: s.event_count + 1,
        last_event_at: Some(e.timestamp@),
    }
}

/// Summary of group `key` after the events of `log`.
pub open spec fn summary_fold(log: Seq<EventEnvelope>, key: Seq<char>) -> SummaryView
    decreases log.len(),
{
    if log.len() == 0 {
        summary_init()
    } else {
        let s = summary_fold(log.drop_last(), key);
        if summary_key(log.last()) == key {
            summary_step(s, log.last())
        } else {
            s
        }
    }
}

/// Strict order on optional times: absent first, then by text.
pub open spec fn opt_time_lt(a: Option<Seq<char>>, b: Option<Seq<char>>) -> bool {
    match (a, b) {
        (None, Some(_)) => true,
        (Some(x), Some(y)) => lex_lt(x, y),
        _ => false,
    }
}

/// Summaries ordered by latest activity, most recent first (ties in any
/// order).
pub open spec fn latest_first(s: Seq<TaskSummary>) -> bool {
    forall|i: int, j: int|
        0 <= i < j < s.len() ==> !opt_time_lt(
            opt_view(#[trigger] s[i].last_event_at),
            opt_view(#[trigger] s[j].last_event_at),
        )
}

/// Some summary of `s` is for key `k`.
pub open spec fn has_key(s: Seq<TaskSummary>, k: Seq<char>) -> bool {
    exists|i: int| 0 <= i < s.len() && #[trigger] s[i].task_id@ == k
}

/// No two summaries of `s` share a key.
pub open spec fn keys_distinct(s: Seq<TaskSummary>) -> bool {
    forall|i: int, j: int|
        0 <= i < j < s.len() ==> (#[trigger] s[i].task_id@) != (#[trigger] s[j].task_id@)
}

proof fn lemma_keys_distinct(log: Seq<EventEnvelope>)
    ensures
        summary_keys(log).no_duplicates(),
    decreases log.len(),
{
    if log.len() > 0 {
        lemma_keys_distinct(log.drop_last());
    }
}

proof fn lemma_fold_unseen(log: Seq<EventEnvelope>, key: Seq<char>)
    requires
        !summary_keys(log).contains(key),
    ensures
        summary_fold(log, key) == summary_init(),
    decreases log.len(),
{
    if log.len() > 0 {
        let ks = summary_keys(log.drop_last());
        let k = summary_key(log.last());
        if !ks.contains(k) {
            assert(ks.push(k).last() == k);
            if ks.contains(key) {
                let j = choose|j: int| 0 <= j < ks.len() && ks[j] == key;
                assert(ks.push(k)[j] == key);
            }
        }
        lemma_fold_unseen(log.drop_last(), key);
    }
}

proof fn lemma_fold_count_bound(log: Seq<EventEnvelope>, key: Seq<char>)
    ensures
        summary_fold(log, key).event_count <= log.len(),
    decreases log.len(),
{
    if log.len() > 0 {
        lemma_fold_count_bound(log.drop_last(), key);
    }
}

proof fn lemma_opt_time_total(a: Option<Seq<char>>, b: Option<Seq<char>>)
    requires
        a != b,
    ensures
        opt_time_lt(a, b) || opt_time_lt(b, a),
{
    if let (Some(x), Some(y)) = (a, b) {
        lemma_lex_total(x, y);
    }
}

proof fn lemma_opt_time_asymmetric(a: Option<Seq<char>>, b: Option<Seq<char>>)
    requires
        opt_time_lt(a, b),
    ensures
        !opt_time_lt(b, a),
{
    if let (Some(x), Some(y)) = (a, b) {
        lemma_lex_asymmetric(x, y);
    }
}

proof fn lemma_opt_time_transitive(a: Option<Seq<char>>, b: Option<Seq<char>>, c: Option<Seq<char>>)
    requires
        opt_time_lt(a, b),
        opt_time_lt(b, c),
    ensures
        opt_time_lt(a, c),
{
    if let (Some(x), Some(y), Some(z)) = (a, b, c) {
        lemma_lex_transitive(x, y, z);
    }
}

/// Whether `a` is strictly earlier than `b` in [`opt_time_lt`].
fn time_lt(a: &Option<String>, b: &Option<String>) -> (r: bool)
    ensures
        r == opt_time_lt(opt_view(*a), opt_view(*b)),
{
    match (a, b) {
        (None, Some(_)) => true,
        (Some(x), Some(y)) => str_lex_lt(x.as_str(), y.as_str()),
        _ => false,
    }
}

/// Apply one event to the summary of its group.
fn apply_to_summary(s: &mut TaskSummary, e: &EventEnvelope)
    requires
        old(s).event_count < usize::MAX,
    ensures
        final(s)@ == summary_step(old(s)@, *e),
        final(s).task_id == old(s).task_id,
{
    s.event_count = s.event_count + 1;
    s.last_event_at = Some(e.timestamp.clone());
    if let DomainEvent::TaskCreated { title, .. } = &e.payload {
        s.title = Some(title.clone());
    }
}

/// Index of the summary with key `k` in `ps`, if present.
fn find_summary(ps: &Vec<TaskSummary>, k: &String) -> (r: Option<usize>)
    ensures
        match r {
            Some(i) => i < ps.len() && ps@[i as int].task_id@ == k@,
            None => forall|j: int| 0 <= j < ps.len() ==> ps@[j].task_id@ != k@,
        },
{
    let mut i: usize = 0;
    while i < ps.len()
        invariant
            i <= ps.len(),
            forall|j: int| 0 <= j < i ==> ps@[j].task_id@ != k@,
        decreases ps.len() - i,
    {
        if str_eq(ps[i].task_id.as_str(), k.as_str()) {
            return Some(i);
        }
        i = i + 1;
    }
    None
}

/// One summary per group of `log`, in order of first appearance: entry `j`
/// is the fold of the log for the `j`-th key.
#[verifier::spinoff_prover]
pub fn group_summaries(log: &Vec<EventEnvelope>) -> (ps: Vec<TaskSummary>)
    ensures
        ps.len() == summary_keys(log@).len(),
        forall|j: int| 0 <= j < ps.len() ==> #[trigger] ps@[j].task_id@ == summary_keys(log@)[j],
        forall|j: int|
            0 <= j < ps.len() ==> #[trigger] ps@[j]@ == summary_fold(log@, summary_keys(log@)[j]),
{
    let mut ps: Vec<TaskSummary> = Vec::new();
    let mut i: usize = 0;
    while i < log.len()
        invariant
            i <= log.len(),
            ps.len() == summary_keys(log@.take(i as int)).len(),
            forall|j: int|
                0 <= j < ps.len() ==> #[trigger] ps@[j].task_id@ == summary_keys(
                    log@.take(i as int),
                )[j] && ps@[j]@ == summary_fold(
                    log@.take(i as int),
                    summary_keys(log@.take(i as int))[j],
                ),
        decreases log.len() - i,
    {
        let ghost pre = log@.take(i as int);
        let ghost post = log@.take(i + 1);
        assert(post.drop_last() == pre);
        assert(post.last() == log@[i as int]);
        proof {
            lemma_keys_distinct(pre);
        }
        let e = &log[i];
        let key: String = match &e.task_id {
            Some(t) => t.clone(),
            None => e.project_id.clone(),
        };
        assert(key@ == summary_key(*e));
        let found = find_summary(&ps, &key);
        let k: usize = match found {
            Some(k) => {
                assert(summary_keys(pre).contains(key@)) by {
                    assert(summary_keys(pre)[k as int] == key@);
                }
                k
            },
            None => {
                assert(!summary_keys(pre).contains(key@)) by {
                    if summary_keys(pre).contains(key@) {
                        let j = choose|j: int|
                            0 <= j < summary_keys(pre).len() && summary_keys(pre)[j] == key@;
                        assert(ps@[j].task_id@ == summary_keys(pre)[j]);
                    }
                }
                proof {
                    lemma_fold_unseen(pre, key@);
                }
                let fresh = TaskSummary {
                    task_id: key.clone(),
                    title: None,
                    event_count: 0,
                    last_event_at: None,
                };
                ps.push(fresh);
                (ps.len() - 1) as usize
            },
        };
        assert(ps@[k as int].task_id@ == key@);
        assert(summary_keys(post).len() == ps.len());
        assert(ps@[k as int]@ == summary_fold(pre, key@));
        proof {
            lemma_fold_count_bound(pre, key@);
        }
        assert forall|j: int| 0 <= j < ps.len() && j != k implies #[trigger] ps@[j].task_id@
            == summary_keys(pre)[j] && ps@[j]@ == summary_fold(pre, summary_keys(pre)[j]) by {
            assert(j < summary_keys(pre).len());
        }
        let ghost before = ps@;
        let mut entry = ps.remove(k);
        apply_to_summary(&mut entry, e);
        ps.insert(k, entry);
        assert(ps@[k as int]@ == summary_step(before[k as int]@, *e));
        assert(ps@[k as int].task_id@ == key@);
        assert forall|j: int| 0 <= j < ps.len() implies #[trigger] ps@[j].task_id@ == summary_keys(
            post,
        )[j] && ps@[j]@ == summary_fold(post, summary_keys(post)[j]) by {
            if j == k {
                assert(summary_keys(post)[j] == key@);
                assert(summary_fold(post, key@) == summary_step(summary_fold(pre, key@), *e));
                assert(ps@[j]@ == summary_fold(post, summary_keys(post)[j]));
            } else {
                assert(ps@[j] == before[j]);
                assert(before[j].task_id@ == summary_keys(pre)[j]);
                assert(before[j]@ == summary_fold(pre, summary_keys(pre)[j]));
                assert(summary_keys(post)[j] == summary_keys(pre)[j]);
                assert(summary_keys(pre)[j] != key@);
                assert(summary_fold(post, summary_keys(pre)[j]) == summary_fold(pre, summary_keys(pre)[j]));
                assert(ps@[j]@ == summary_fold(post, summary_keys(post)[j]));
            }
        }
        assert(ps.len() == summary_keys(post).len());
        i = i + 1;
        assert(log@.take(i as int) == post);
    }
    assert(log@.take(log.len() as int) == log@);
    assert forall|j: int| 0 <= j < ps.len() implies #[trigger] ps@[j]@ == summary_fold(
        log@,
        summary_keys(log@)[j],
    ) by {
        assert(ps@[j].task_id@ == summary_keys(log@)[j]);
    }
    ps
}

/// Insert `x` into `out`, which is ordered latest first, after every entry
/// at least as recent as `x`. Returns the position `x` was inserted at.
fn insert_latest_first(out: &mut Vec<TaskSummary>, x: TaskSummary) -> (p: usize)
    requires
        latest_first(old(out)@),
    ensures
        p <= old(out)@.len(),
        final(out)@ == old(out)@.insert(p as int, x),
        latest_first(final(out)@),
{
    let mut k: usize = 0;
    while k < out.len() && !time_lt(&out[k].last_event_at, &x.last_event_at)
        invariant
            k <= out.len(),
            forall|j: int|
                0 <= j < k ==> !opt_time_lt(
                    opt_view(#[trigger] out@[j].last_event_at),
                    opt_view(x.last_event_at),
                ),
        decreases out.len() - k,
    {
        k = k + 1;
    }
    let ghost before = out@;
    let ghost xt = opt_view(x.last_event_at);
    proof {
        assert forall|j: int| k <= j < before.len() implies opt_time_lt(
            opt_view(#[trigger] before[j].last_event_at),
            xt,
        ) by {
            let tk = opt_view(before[k as int].last_event_at);
            let tj = opt_view(before[j].last_event_at);
            if j > k {
                assert(!opt_time_lt(tk, tj));
                if tj != tk {
                    lemma_opt_time_total(tj, tk);
                    lemma_opt_time_transitive(tj, tk, xt);
                }
            }
        }
    }
    out.insert(k, x);
    proof {
        let n = out@;
        assert forall|a: int, b: int| 0 <= a < b < n.len() implies !opt_time_lt(
            opt_view(#[trigger] n[a].last_event_at),
            opt_view(#[trigger] n[b].last_event_at),
        ) by {
            if b < k {
                assert(n[a] == before[a] && n[b] == before[b]);
            } else if b == k {
                assert(n[a] == before[a]);
            } else if a < k {
                assert(n[a] == before[a] && n[b] == before[b - 1]);
                let ta = opt_view(before[a].last_event_at);
                let tb = opt_view(before[b - 1].last_event_at);
                if opt_time_lt(ta, tb) {
                    lemma_opt_time_transitive(ta, tb, xt);
                }
            } else if a == k {
                assert(n[b] == before[b - 1]);
                lemma_opt_time_asymmetric(opt_view(before[b - 1].last_event_at), xt);
            } else {
                assert(n[a] == before[a - 1] && n[b] == before[b - 1]);
            }
        }
    }
    k
}

proof fn lemma_insert_has_key(s: Seq<TaskSummary>, p: int, x: TaskSummary, k: Seq<char>)
    requires
        0 <= p <= s.len(),
    ensures
        has_key(s.insert(p, x), k) <==> (has_key(s, k) || x.task_id@ == k),
{
    let n = s.insert(p, x);
    if has_key(n, k) {
        let i = choose|i: int| 0 <= i < n.len() && #[trigger] n[i].task_id@ == k;
        if i < p {
            assert(s[i].task_id@ == k);
        } else if i > p {
            assert(s[i - 1].task_id@ == k);
        }
    }
    if has_key(s, k) {
        let i = choose|i: int| 0 <= i < s.len() && #[trigger] s[i].task_id@ == k;
        if i < p {
            assert(n[i].task_id@ == k);
        } else {
            assert(n[i + 1].task_id@ == k);
        }
    }
    if x.task_id@ == k {
        assert(n[p].task_id@ == k);
    }
}

/// The task list (`GET /api/tasks`): one summary per task id (events
/// without a task are grouped under their project id) with the number of
/// its events, the time of its latest event and the title of its latest
/// `TaskCreated`, most recently active first.
#[verifier::spinoff_prover]
pub fn task_summaries(log: &Vec<EventEnvelope>) -> (r: Vec<TaskSummary>)
    ensures
        r.len() == summary_keys(log@).len(),
        keys_distinct(r@),
        latest_first(r@),
        forall|k: Seq<char>| has_key(r@, k) <==> summary_keys(log@).contains(k),
        forall|i: int|
            0 <= i < r.len() ==> #[trigger] r@[i]@ == summary_fold(log@, r@[i].task_id@),
{
    let mut ps = group_summaries(log);
    let ghost all = ps@;
    let ghost ks = summary_keys(log@);
    proof {
        lemma_keys_distinct(log@);
    }
    let mut out: Vec<TaskSummary> = Vec::new();
    while ps.len() > 0
        invariant
            all.len() == ks.len(),
            ks == summary_keys(log@),
            ks.no_duplicates(),
            forall|j: int|
                0 <= j < all.len() ==> #[trigger] all[j].task_id@ == ks[j] && all[j]@
                    == summary_fold(log@, ks[j]),
            ps.len() <= all.len(),
            ps@ == all.take(ps.len() as int),
            out.len() + ps.len() == all.len(),
            latest_first(out@),
            keys_distinct(out@),
            forall|i: int|
                0 <= i < out.len() ==> #[trigger] out@[i]@ == summary_fold(log@, out@[i].task_id@),
            forall|k: Seq<char>|
                has_key(out@, k) <==> exists|j: int| ps.len() <= j < all.len() && #[trigger] ks[j] == k,
        decreases ps.len(),
    {
        let ghost m = ps.len() - 1;
        let ghost prev = ps@;
        let x = ps.pop().unwrap();
        assert(prev[m] == all[m]);
        assert(ps@ == all.take(m));
        assert(x.task_id@ == ks[m]);
        assert forall|i: int| 0 <= i < out@.len() implies #[trigger] out@[i].task_id@
            != x.task_id@ by {
            if out@[i].task_id@ == x.task_id@ {
                assert(has_key(out@, x.task_id@));
                let j = choose|j: int| m + 1 <= j < all.len() && #[trigger] ks[j] == x.task_id@;
                assert(ks[j] == ks[m]);
            }
        }
        let ghost before = out@;
        let p = insert_latest_first(&mut out, x);
        proof {
            assert forall|a: int, b: int| 0 <= a < b < out@.len() implies (
            #[trigger] out@[a].task_id@) != (#[trigger] out@[b].task_id@) by {
                if a == p {
                    assert(out@[b] == before[b - 1]);
                } else if b == p {
                    assert(out@[a] == before[a]);
                } else if b < p {
                    assert(out@[a] == before[a] && out@[b] == before[b]);
                } else if a < p {
                    assert(out@[a] == before[a] && out@[b] == before[b - 1]);
                } else {
                    assert(out@[a] == before[a - 1] && out@[b] == before[b - 1]);
                }
            }
            assert forall|k: Seq<char>|
                has_key(out@, k) <==> exists|j: int| m <= j < all.len() && #[trigger] ks[j] == k by {
                lemma_insert_has_key(before, p as int, x, k);
                if has_key(out@, k) && k != ks[m] {
                    let j = choose|j: int| m + 1 <= j < all.len() && #[trigger] ks[j] == k;
                    assert(ks[j] == k);
                }
                if exists|j: int| m <= j < all.len() && #[trigger] ks[j] == k {
                    let j = choose|j: int| m <= j < all.len() && #[trigger] ks[j] == k;
                    if j > m {
                        assert(ks[j] == k);
                        assert(has_key(before, k));
                    }
                }
            }
            assert forall|i: int| 0 <= i < out.len() implies #[trigger] out@[i]@ == summary_fold(
                log@,
                out@[i].task_id@,
            ) by {
                if i < p {
                    assert(out@[i] == before[i]);
                } else if i > p {
                    assert(out@[i] == before[i - 1]);
                }
            }
        }
    }
    proof {
        assert forall|k: Seq<char>| has_key(out@, k) <==> ks.contains(k) by {
            if ks.contains(k) {
                let j = choose|j: int| 0 <= j < ks.len() && ks[j] == k;
                assert(ks[j] == k);
            }
            if has_key(out@, k) {
                let j = choose|j: int| 0 <= j < all.len() && #[trigger] ks[j] == k;
                assert(0 <= j < ks.len() && ks[j] == k);
            }
        }
    }
    out
}

/// Sum of the event counts of the groups `ks` after `log`.
pub open spec fn count_sum(log: Seq<EventEnvelope>, ks: Seq<Seq<char>>) -> nat
    decreases ks.len(),
{
    if ks.len() == 0 {
        0
    } else {
        count_sum(log, ks.drop_last()) + summary_fold(log, ks.last()).event_count
    }
}

proof fn lemma_count_sum_step(pre: Seq<EventEnvelope>, e: EventEnvelope, ks: Seq<Seq<char>>)
    requires
        ks.no_duplicates(),
    ensures
        count_sum(pre.push(e), ks) == count_sum(pre, ks) + if ks.contains(summary_key(e)) {
            1nat
        } else {
            0nat
        },
    decreases ks.len(),
{
    let post = pre.push(e);
    assert(post.drop_last() == pre);
    if ks.len() > 0 {
        let rest = ks.drop_last();
        let x = ks.last();
        assert(rest.no_duplicates()) by {
            assert forall|a: int, b: int| 0 <= a < rest.len() && 0 <= b < rest.len() && a != b implies rest[a]
                != rest[b] by {
                assert(rest[a] == ks[a] && rest[b] == ks[b]);
            }
        }
        lemma_count_sum_step(pre, e, rest);
        let k = summary_key(e);
        if x == k {
            assert(ks.contains(k)) by {
                assert(ks[ks.len() - 1] == k);
            }
            assert(!rest.contains(k)) by {
                if rest.contains(k) {
                    let j = choose|j: int| 0 <= j < rest.len() && rest[j] == k;
                    assert(ks[j] == ks[ks.len() - 1]);
                }
            }
        } else {
            assert(ks.contains(k) == rest.contains(k)) by {
                if ks.contains(k) {
                    let j = choose|j: int| 0 <= j < ks.len() && ks[j] == k;
                    assert(j < ks.len() - 1);
                    assert(rest[j] == k);
                }
                if rest.contains(k) {
                    let j = choose|j: int| 0 <= j < rest.len() && rest[j] == k;
                    assert(ks[j] == k);
                }
            }
        }
    }
}

/// Every event is counted exactly once: the event counts of all groups of a
/// log add up to the number of its events.
pub proof fn law_task_list_counts_every_event(log: Seq<EventEnvelope>)
    ensures
        count_sum(log, summary_keys(log)) == log.len(),
    decreases log.len(),
{
    if log.len() > 0 {
        let pre = log.drop_last();
        let e = log.last();
        assert(pre.push(e) == log);
        law_task_list_counts_every_event(pre);
        lemma_keys_distinct(pre);
        lemma_count_sum_step(pre, e, summary_keys(pre));
        let k = summary_key(e);
        if !summary_keys(pre).contains(k) {
            lemma_fold_unseen(pre, k);
            let ks = summary_keys(pre).push(k);
            assert(ks.drop_last() == summary_keys(pre));
            assert(summary_fold(log, k) == summary_step(summary_fold(pre, k), e));
        }
    }
}

} // verus!
