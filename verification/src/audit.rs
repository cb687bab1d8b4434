//! The audit log: what is recorded of agent and import operations, and the
//! query `GET /api/audit` answers from it.

use vstd::prelude::*;

use crate::ids::now_rfc3339;
use crate::text::{chars_of, lower, lower_vec, seq_eq, string_from_literal};

verus! {

/// The kind of operation being audited.
#[derive(Debug, Clone, Copy, PartialEq, Eq, Structural)]
pub enum AuditAction {
    /// An agent process was spawned.
    Spawn,
    /// A message was sent to an agent.
    Send,
    /// An agent process was terminated.
    Terminate,
    /// An issue was imported from an external system.
    Import,
}

/// Wire name of an action (snake case).
pub open spec fn action_text(a: AuditAction) -> Seq<char> {
    match a {
        AuditAction::Spawn => "spawn"@,
        AuditAction::Send => "send"@,
        AuditAction::Terminate => "terminate"@,
        AuditAction::Import => "import"@,
    }
}

/// The action a filter text names: its ASCII lowercase is one of the wire
/// names.
pub open spec fn action_named(t: Seq<char>) -> Option<AuditAction> {
    let l = lower(t);
    if l == "spawn"@ {
        Some(AuditAction::Spawn)
    } else if l == "send"@ {
        Some(AuditAction::Send)
    } else if l == "terminate"@ {
        Some(AuditAction::Terminate)
    } else if l == "import"@ {
        Some(AuditAction::Import)
    } else {
        None
    }
}

impl AuditAction {
    /// Wire name (`"spawn"`, `"send"`, `"terminate"`, `"import"`).
    pub fn as_str(&self) -> (s: String)
        ensures
            s@ == action_text(*self),
    {
        match self {
            AuditAction::Spawn => string_from_literal("spawn"),
            AuditAction::Send => string_from_literal("send"),
            AuditAction::Terminate => string_from_literal("terminate"),
            AuditAction::Import => string_from_literal("import"),
        }
    }

    /// The action a query names, matched case-insensitively against the
    /// wire names; `None` for any other text.
    pub fn from_str_loose(t: &str) -> (r: Option<AuditAction>)
        ensures
            r == action_named(t@),
    {
        let l = lower_vec(&chars_of(t));
        if seq_eq(&l, &chars_of("spawn")) {
            Some(AuditAction::Spawn)
        } else if seq_eq(&l, &chars_of("send")) {
            Some(AuditAction::Send)
        } else if seq_eq(&l, &chars_of("terminate")) {
            Some(AuditAction::Terminate)
        } else if seq_eq(&l, &chars_of("import")) {
            Some(AuditAction::Import)
        } else {
            None
        }
    }
}

/// A single audit log record: the RFC 3339 time it was logged, what
/// happened, who did it, and the action's details as JSON text.
#[derive(Debug, Clone, PartialEq, Eq)]
pub struct AuditEntry {
    pub timestamp: String,
    pub action: AuditAction,
    pub actor_id: String,
    pub details: String,
}

impl AuditEntry {
    /// A record of `action` by `actor_id`, stamped with the current time.
    pub fn now(action: AuditAction, actor_id: String, details: String) -> (e: AuditEntry)
        ensures
            e.action == action,
            e.actor_id == actor_id,
            e.details == details,
    {
        AuditEntry { timestamp: now_rfc3339(), action, actor_id, details }
    }
}

/// A field-by-field copy of an entry.
fn copy_entry(e: &AuditEntry) -> (r: AuditEntry)
    ensures
        r == *e,
{
    AuditEntry {
        timestamp: e.timestamp.clone(),
        action: e.action,
        actor_id: e.actor_id.clone(),
        details: e.details.clone(),
    }
}

/// Query parameters of `GET /api/audit`.
#[derive(Debug, Clone, PartialEq, Eq)]
pub struct AuditQuery {
    /// Filter by action type, case-insensitive.
    pub action: Option<String>,
    /// Maximum number of entries to return (default 100, at most 1000).
    pub limit: Option<usize>,
}

/// Default number of entries returned.
pub const DEFAULT_AUDIT_LIMIT: usize = 100;

/// Largest number of entries a query may ask for.
pub const MAX_AUDIT_LIMIT: usize = 1000;

/// Limit a query resolves to: the requested one (default 100), at most 1000.
pub open spec fn resolved_limit(l: Option<usize>) -> usize {
    let n = match l {
        Some(n) => n,
        None => DEFAULT_AUDIT_LIMIT,
    };
    if n < MAX_AUDIT_LIMIT {
        n
    } else {
        MAX_AUDIT_LIMIT
    }
}

impl AuditQuery {
    /// The number of entries to return.
    pub fn effective_limit(&self) -> (n: usize)
        ensures
            n == resolved_limit(self.limit),
    {
        let n = match self.limit {
            Some(n) => n,
            None => DEFAULT_AUDIT_LIMIT,
        };
        if n < MAX_AUDIT_LIMIT {
            n
        } else {
            MAX_AUDIT_LIMIT
        }
    }

    /// The action to filter by: the one the `action` parameter names, or no
    /// filter when it is absent or names none.
    pub fn action_filter(&self) -> (f: Option<AuditAction>)
        ensures
            f == match self.action {
                Some(t) => action_named(t@),
                None => None,
            },
    {
        match &self.action {
            Some(t) => AuditAction::from_str_loose(t.as_str()),
            None => None,
        }
    }
}

/// Whether an entry passes an action filter.
pub open spec fn passes(e: AuditEntry, f: Option<AuditAction>) -> bool {
    match f {
        Some(a) => e.action == a,
        None => true,
    }
}

/// The entries of `log` (oldest first) that pass `f`, newest first.
pub open spec fn newest_matching(log: Seq<AuditEntry>, f: Option<AuditAction>) -> Seq<AuditEntry>
    decreases log.len(),
{
    if log.len() == 0 {
        Seq::empty()
    } else {
        let rest = newest_matching(log.drop_last(), f);
        if passes(log.last(), f) {
            seq![log.last()] + rest
        } else {
            rest
        }
    }
}

/// `n` entries at most of `s`, from its start.
pub open spec fn at_most(s: Seq<AuditEntry>, n: nat) -> Seq<AuditEntry> {
    if s.len() <= n {
        s
    } else {
        s.take(n as int)
    }
}

proof fn lemma_newest_split(a: Seq<AuditEntry>, b: Seq<AuditEntry>, f: Option<AuditAction>)
    ensures
        newest_matching(a + b, f) == newest_matching(b, f) + newest_matching(a, f),
    decreases b.len(),
{
    if b.len() == 0 {
        assert(a + b =~= a);
        assert(newest_matching(b, f) + newest_matching(a, f) =~= newest_matching(a, f));
    } else {
        lemma_newest_split(a, b.drop_last(), f);
        assert((a + b).drop_last() =~= a + b.drop_last());
        assert((a + b).last() == b.last());
        if passes(b.last(), f) {
            assert(seq![b.last()] + (newest_matching(b.drop_last(), f) + newest_matching(a, f))
                =~= (seq![b.last()] + newest_matching(b.drop_last(), f)) + newest_matching(a, f));
        }
    }
}

/// The answer to an audit query over `log` (oldest first): the entries
/// that pass `filter`, newest first, at most `limit` of them.
pub fn recent_entries(log: &Vec<AuditEntry>, limit: usize, filter: Option<AuditAction>) -> (r: Vec<
    AuditEntry,
>)
    ensures
        r@ == at_most(newest_matching(log@, filter), limit as nat),
{
    let mut out: Vec<AuditEntry> = Vec::new();
    let mut i: usize = log.len();
    while i > 0 && out.len() < limit
        invariant
            i <= log.len(),
            out@ == newest_matching(log@.subrange(i as int, log.len() as int), filter),
            out.len() <= limit,
        decreases i,
    {
        let ghost suffix = log@.subrange(i as int, log.len() as int);
        i = i - 1;
        let ghost longer = log@.subrange(i as int, log.len() as int);
        proof {
            lemma_newest_split(seq![log@[i as int]], suffix, filter);
            assert(longer =~= seq![log@[i as int]] + suffix);
            let single = seq![log@[i as int]];
            assert(single.drop_last() =~= Seq::<AuditEntry>::empty());
            assert(newest_matching(single.drop_last(), filter) =~= Seq::<AuditEntry>::empty());
        }
        let keep = match filter {
            Some(a) => log[i].action == a,
            None => true,
        };
        if keep {
            out.push(copy_entry(&log[i]));
        }
    }
    proof {
        let n = log.len() as int;
        lemma_newest_split(log@.subrange(0, i as int), log@.subrange(i as int, n), filter);
        assert(log@.subrange(0, i as int) + log@.subrange(i as int, n) =~= log@);
        let whole = newest_matching(log@, filter);
        if i == 0 {
            assert(log@.subrange(0, 0) =~= Seq::<AuditEntry>::empty());
            assert(whole =~= out@);
        } else {
            assert(out.len() == limit);
            assert(whole.take(limit as int) =~= out@);
        }
    }
    out
}

proof fn lemma_newest_matching_passes(log: Seq<AuditEntry>, f: Option<AuditAction>)
    ensures
        forall|i: int|
            0 <= i < newest_matching(log, f).len() ==> passes(#[trigger] newest_matching(log, f)[i], f),
        newest_matching(log, f).len() <= log.len(),
    decreases log.len(),
{
    if log.len() > 0 {
        lemma_newest_matching_passes(log.drop_last(), f);
        let rest = newest_matching(log.drop_last(), f);
        if passes(log.last(), f) {
            let n = seq![log.last()] + rest;
            assert forall|i: int| 0 <= i < n.len() implies passes(#[trigger] n[i], f) by {
                if i > 0 {
                    assert(n[i] == rest[i - 1]);
                }
            }
        }
    }
}

/// An audit query answers with at most `limit` entries, each of the action
/// it filters by.
pub proof fn law_audit_query_bounded_and_filtered(
    log: Seq<AuditEntry>,
    limit: nat,
    filter: Option<AuditAction>,
)
    ensures
        at_most(newest_matching(log, filter), limit).len() <= limit,
        forall|i: int|
            0 <= i < at_most(newest_matching(log, filter), limit).len() ==> passes(
                #[trigger] at_most(newest_matching(log, filter), limit)[i],
                filter,
            ),
{
    lemma_newest_matching_passes(log, filter);
    let r = at_most(newest_matching(log, filter), limit);
    assert forall|i: int| 0 <= i < r.len() implies passes(#[trigger] r[i], filter) by {
        assert(r[i] == newest_matching(log, filter)[i]);
    }
}

/// The newest matching entry comes first: when the last entry of the log
/// passes the filter, a query with a positive limit starts with it.
pub proof fn law_audit_query_newest_first(log: Seq<AuditEntry>, limit: nat, filter: Option<AuditAction>)
    requires
        log.len() > 0,
        passes(log.last(), filter),
        limit > 0,
    ensures
        at_most(newest_matching(log, filter), limit).len() > 0,
        at_most(newest_matching(log, filter), limit)[0] == log.last(),
{
}

} // verus!
