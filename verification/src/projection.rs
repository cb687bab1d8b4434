//! Task views derived from the event log: the board list, the triage inbox,
//! the task detail and the activity timeline.
//!
//! Each view is a left fold of the log; the spec functions below state the
//! fold and the executable functions are proved to compute it.

use vstd::prelude::*;

use crate::domain::{
    clone_opt, priority_text, BoardStatus, DomainEvent, EventEnvelope, HumanDecisionKind, Priority,
    TaskOutcome,
};
use crate::text::{
    concat2, concat3, lemma_lex_total, lemma_lex_transitive, lex_lt, push_str, str_eq, str_lex_lt,
    string_from_literal,
};
use vstd::utf8::{decode_utf8, encode_utf8, is_char_boundary};

verus! {

/// The view of an optional string.
pub open spec fn opt_view(o: Option<String>) -> Option<Seq<char>> {
    match o {
        Some(s) => Some(s@),
        None => None,
    }
}

/// Per-task state accumulated while scanning the log.
#[derive(Debug, Clone, PartialEq, Eq)]
pub struct TaskProjection {
    pub id: String,
    pub title: String,
    pub stage: String,
    pub priority: Option<Priority>,
    pub agent_name: Option<String>,
    pub summary: String,
    pub status: BoardStatus,
    pub board_id: Option<String>,
    pub created_at: String,
    pub had_agent_completed: bool,
}

/// Mathematical content of a [`TaskProjection`] (without its id).
pub struct ProjView {
    pub title: Seq<char>,
    pub stage: Seq<char>,
    pub priority: Option<Priority>,
    pub agent_name: Option<Seq<char>>,
    pub summary: Seq<char>,
    pub status: BoardStatus,
    pub board_id: Option<Seq<char>>,
    pub created_at: Seq<char>,
    pub had_agent_completed: bool,
}

impl View for TaskProjection {
    type V = ProjView;

    open spec fn view(&self) -> ProjView {
        ProjView {
            title: self.title@,
            stage: self.stage@,
            priority: self.priority,
            agent_name: opt_view(self.agent_name),
            summary: self.summary@,
            status: self.status,
            board_id: opt_view(self.board_id),
            created_at: self.created_at@,
            had_agent_completed: self.had_agent_completed,
        }
    }
}

/// State of a task before any of its events is seen.
pub open spec fn proj_init() -> ProjView {
    ProjView {
        title: Seq::empty(),
        stage: Seq::empty(),
        priority: None,
        agent_name: None,
        summary: Seq::empty(),
        status: BoardStatus::Waiting,
        board_id: None,
        created_at: Seq::empty(),
        had_agent_completed: false,
    }
}

/// Status after the agent state changes without a stage rule applying:
/// running while an agent is assigned, waiting otherwise.
pub open spec fn agent_status(p: ProjView) -> BoardStatus {
    if p.agent_name is Some {
        BoardStatus::Running
    } else {
        BoardStatus::Waiting
    }
}

/// Effect of one event on a task's projection.
pub open spec fn proj_step(p: ProjView, e: EventEnvelope) -> ProjView {
    match e.payload {
        DomainEvent::TaskCreated { title, priority, initial_stage, board_id, .. } => ProjView {
            title: title@,
            stage: initial_stage@,
            priority: Some(priority),
            status: BoardStatus::Waiting,
            board_id: opt_view(board_id),
            created_at: e.timestamp@,
            ..p
        },
        DomainEvent::TaskStageChanged { to_stage, .. } => ProjView {
            stage: to_stage@,
            status: if p.status == BoardStatus::Blocked {
                agent_status(p)
            } else {
                BoardStatus::Waiting
            },
            ..p
        },
        DomainEvent::TaskPriorityChanged { to, .. } => ProjView { priority: Some(to), ..p },
        DomainEvent::AgentAssigned { agent_name, .. } => ProjView {
            agent_name: Some(agent_name@),
            status: BoardStatus::Running,
            ..p
        },
        DomainEvent::AgentCompleted { summary, .. } => ProjView {
            had_agent_completed: true,
            summary: match summary {
                Some(s) => s@,
                None => p.summary,
            },
            agent_name: None,
            status: if p.stage == "deployed"@ {
                BoardStatus::Complete
            } else {
                BoardStatus::Waiting
            },
            ..p
        },
        DomainEvent::TaskBlocked { .. } => ProjView { status: BoardStatus::Blocked, ..p },
        DomainEvent::TaskUnblocked { .. } => ProjView { status: agent_status(p), ..p },
        DomainEvent::TaskCompleted { .. } => ProjView { status: BoardStatus::Complete, ..p },
        _ => p,
    }
}

/// Projection of task `tid` after the events of `log`.
pub open spec fn proj_fold(log: Seq<EventEnvelope>, tid: Seq<char>) -> ProjView
    decreases log.len(),
{
    if log.len() == 0 {
        proj_init()
    } else {
        let p = proj_fold(log.drop_last(), tid);
        if opt_view(log.last().task_id) == Some(tid) {
            proj_step(p, log.last())
        } else {
            p
        }
    }
}

/// After a priority change of task `tid` its projection carries the new
/// priority, and nothing else of it changes.
pub proof fn law_priority_change_sets_priority(
    log: Seq<EventEnvelope>,
    e: EventEnvelope,
    tid: Seq<char>,
    from: Priority,
    to: Priority,
)
    requires
        e.payload == (DomainEvent::TaskPriorityChanged { from, to }),
        opt_view(e.task_id) == Some(tid),
    ensures
        proj_fold(log.push(e), tid).priority == Some(to),
        proj_fold(log.push(e), tid) == (ProjView { priority: Some(to), ..proj_fold(log, tid) }),
{
    assert(log.push(e).drop_last() == log);
}

/// What one event of task `tid` does to its projection: creation sets the
/// title, stage and priority and leaves the task waiting; a stage change
/// moves it (waiting, or back to its agent state when it was blocked); an
/// assignment names the agent and runs the task; a completion of the agent
/// records it, clears the agent and leaves the task waiting (complete in
/// `deployed`); blocking, unblocking and completion set the status; output,
/// decisions, imports and integration changes leave it as it was.
pub proof fn law_event_effects(log: Seq<EventEnvelope>, e: EventEnvelope, tid: Seq<char>)
    requires
        opt_view(e.task_id) == Some(tid),
    ensures
        ({
            let before = proj_fold(log, tid);
            let after = proj_fold(log.push(e), tid);
            &&& e.payload matches DomainEvent::TaskCreated { title, initial_stage, priority, .. }
                ==> after.title == title@ && after.stage == initial_stage@ && after.priority
                == Some(priority) && after.status == BoardStatus::Waiting
            &&& e.payload matches DomainEvent::TaskStageChanged { to_stage, .. } ==> after.stage
                == to_stage@ && after.priority == before.priority && after.status == (
            if before.status == BoardStatus::Blocked {
                if before.agent_name is Some {
                    BoardStatus::Running
                } else {
                    BoardStatus::Waiting
                }
            } else {
                BoardStatus::Waiting
            })
            &&& e.payload matches DomainEvent::AgentAssigned { agent_name, .. } ==> after.agent_name
                == Some(agent_name@) && after.status == BoardStatus::Running
            &&& e.payload matches DomainEvent::AgentCompleted { summary, .. }
                ==> after.had_agent_completed && after.agent_name is None && after.summary == (
            match summary {
                Some(t) => t@,
                None => before.summary,
            }) && after.status == (if before.stage == "deployed"@ {
                BoardStatus::Complete
            } else {
                BoardStatus::Waiting
            })
            &&& e.payload is TaskBlocked ==> after == (ProjView {
                status: BoardStatus::Blocked,
                ..before
            })
            &&& e.payload is TaskUnblocked ==> after == (ProjView {
                status: if before.agent_name is Some {
                    BoardStatus::Running
                } else {
                    BoardStatus::Waiting
                },
                ..before
            })
            &&& e.payload is TaskCompleted ==> after == (ProjView {
                status: BoardStatus::Complete,
                ..before
            })
            &&& e.payload is AgentOutput || e.payload is HumanDecision || e.payload is TaskImported
                || e.payload is IntegrationConfigured ==> after == before
        }),
{
    assert(log.push(e).drop_last() == log);
}

/// An event of another task (or of no task) leaves the projection of `tid`
/// unchanged.
pub proof fn law_other_task_untouched(log: Seq<EventEnvelope>, e: EventEnvelope, tid: Seq<char>)
    requires
        opt_view(e.task_id) != Some(tid),
    ensures
        proj_fold(log.push(e), tid) == proj_fold(log, tid),
{
    assert(log.push(e).drop_last() == log);
}

/// Task ids of `log`, in order of first appearance.
pub open spec fn task_ids(log: Seq<EventEnvelope>) -> Seq<Seq<char>>
    decreases log.len(),
{
    if log.len() == 0 {
        Seq::empty()
    } else {
        let ids = task_ids(log.drop_last());
        match log.last().task_id {
            Some(t) => if ids.contains(t@) {
                ids
            } else {
                ids.push(t@)
            },
            None => ids,
        }
    }
}

proof fn lemma_task_ids_distinct(log: Seq<EventEnvelope>)
    ensures
        task_ids(log).no_duplicates(),
    decreases log.len(),
{
    if log.len() > 0 {
        lemma_task_ids_distinct(log.drop_last());
    }
}

proof fn lemma_fold_unseen(log: Seq<EventEnvelope>, tid: Seq<char>)
    requires
        !task_ids(log).contains(tid),
    ensures
        proj_fold(log, tid) == proj_init(),
    decreases log.len(),
{
    if log.len() > 0 {
        let ids = task_ids(log.drop_last());
        match log.last().task_id {
            Some(t) => {
                if !ids.contains(t@) {
                    assert(ids.push(t@).last() == t@);
                    if ids.contains(tid) {
                        let j = choose|j: int| 0 <= j < ids.len() && ids[j] == tid;
                        assert(ids.push(t@)[j] == tid);
                    }
                }
            },
            None => {},
        }
        lemma_fold_unseen(log.drop_last(), tid);
    }
}

/// Apply one event to a task's projection.
pub fn apply_event(p: &mut TaskProjection, e: &EventEnvelope)
    ensures
        final(p)@ == proj_step(old(p)@, *e),
        final(p).id == old(p).id,
{
    match &e.payload {
        DomainEvent::TaskCreated { title, priority, initial_stage, board_id, .. } => {
            p.title = title.clone();
            p.stage = initial_stage.clone();
            p.priority = Some(*priority);
            p.status = BoardStatus::Waiting;
            p.board_id = clone_opt(board_id);
            p.created_at = e.timestamp.clone();
        },
        DomainEvent::TaskStageChanged { to_stage, .. } => {
            p.stage = to_stage.clone();
            if p.status == BoardStatus::Blocked {
                p.status = if p.agent_name.is_some() {
                    BoardStatus::Running
                } else {
                    BoardStatus::Waiting
                };
            } else {
                p.status = BoardStatus::Waiting;
            }
        },
        DomainEvent::TaskPriorityChanged { to, .. } => {
            p.priority = Some(*to);
        },
        DomainEvent::AgentAssigned { agent_name, .. } => {
            p.agent_name = Some(agent_name.clone());
            p.status = BoardStatus::Running;
        },
        DomainEvent::AgentCompleted { summary, .. } => {
            p.had_agent_completed = true;
            match summary {
                Some(s) => {
                    p.summary = s.clone();
                },
                None => {},
            }
            p.agent_name = None;
            if str_eq(p.stage.as_str(), "deployed") {
                p.status = BoardStatus::Complete;
            } else {
                p.status = BoardStatus::Waiting;
            }
        },
        DomainEvent::TaskBlocked { .. } => {
            p.status = BoardStatus::Blocked;
        },
        DomainEvent::TaskUnblocked { .. } => {
            p.status = if p.agent_name.is_some() {
                BoardStatus::Running
            } else {
                BoardStatus::Waiting
            };
        },
        DomainEvent::TaskCompleted { .. } => {
            p.status = BoardStatus::Complete;
        },
        _ => {},
    }
}

/// A fresh projection for task `id`.
pub fn new_projection(id: &String) -> (p: TaskProjection)
    ensures
        p@ == proj_init(),
        p.id@ == id@,
{
    TaskProjection {
        id: id.clone(),
        title: String::new(),
        stage: String::new(),
        priority: None,
        agent_name: None,
        summary: String::new(),
        status: BoardStatus::Waiting,
        board_id: None,
        created_at: String::new(),
        had_agent_completed: false,
    }
}

/// Index of the projection of task `id` in `ps`, if present.
fn find_projection(ps: &Vec<TaskProjection>, id: &String) -> (r: Option<usize>)
    ensures
        match r {
            Some(k) => k < ps.len() && ps@[k as int].id@ == id@,
            None => forall|j: int| 0 <= j < ps.len() ==> ps@[j].id@ != id@,
        },
{
    let mut k: usize = 0;
    while k < ps.len()
        invariant
            k <= ps.len(),
            forall|j: int| 0 <= j < k ==> ps@[j].id@ != id@,
        decreases ps.len() - k,
    {
        if str_eq(ps[k].id.as_str(), id.as_str()) {
            return Some(k);
        }
        k = k + 1;
    }
    None
}

/// The projection of every task in `log`, in order of first appearance:
/// entry `j` is the fold of the log for the `j`-th task id.
#[verifier::spinoff_prover]
pub fn project_tasks(log: &Vec<EventEnvelope>) -> (ps: Vec<TaskProjection>)
    ensures
        ps.len() == task_ids(log@).len(),
        forall|j: int|
            0 <= j < ps.len() ==> #[trigger] ps@[j].id@ == task_ids(log@)[j] && ps@[j]@
                == proj_fold(log@, task_ids(log@)[j]),
{
    let mut ps: Vec<TaskProjection> = Vec::new();
    let mut i: usize = 0;
    while i < log.len()
        invariant
            i <= log.len(),
            ps.len() == task_ids(log@.take(i as int)).len(),
            forall|j: int|
                0 <= j < ps.len() ==> #[trigger] ps@[j].id@ == task_ids(log@.take(i as int))[j]
                    && ps@[j]@ == proj_fold(log@.take(i as int), task_ids(log@.take(i as int))[j]),
        decreases log.len() - i,
    {
        let ghost pre = log@.take(i as int);
        let ghost post = log@.take(i + 1);
        assert(post.drop_last() == pre);
        assert(post.last() == log@[i as int]);
        proof {
            lemma_task_ids_distinct(pre);
        }
        let e = &log[i];
        match &e.task_id {
            None => {
                assert(task_ids(post) == task_ids(pre));
                assert forall|j: int| 0 <= j < ps.len() implies #[trigger] ps@[j].id@
                    == task_ids(post)[j] && ps@[j]@ == proj_fold(post, task_ids(post)[j]) by {
                    assert(opt_view(post.last().task_id) is None);
                    assert(proj_fold(post, task_ids(pre)[j]) == proj_fold(pre, task_ids(pre)[j]));
                }
            },
            Some(tid) => {
                let found = find_projection(&ps, tid);
                let k: usize = match found {
                    Some(k) => {
                        assert(task_ids(pre).contains(tid@)) by {
                            assert(task_ids(pre)[k as int] == tid@);
                        }
                        k
                    },
                    None => {
                        assert(!task_ids(pre).contains(tid@)) by {
                            if task_ids(pre).contains(tid@) {
                                let j = choose|j: int|
                                    0 <= j < task_ids(pre).len() && task_ids(pre)[j] == tid@;
                                assert(ps@[j].id@ == task_ids(pre)[j]);
                            }
                        }
                        proof {
                            lemma_fold_unseen(pre, tid@);
                        }
                        let fresh = new_projection(tid);
                        ps.push(fresh);
                        (ps.len() - 1) as usize
                    },
                };
                assert(ps@[k as int].id@ == tid@);
                assert(task_ids(post).len() == ps.len());
                assert(ps@[k as int]@ == proj_fold(pre, tid@));
                let ghost before = ps@;
                let mut entry = ps.remove(k);
                apply_event(&mut entry, e);
                ps.insert(k, entry);
                assert forall|j: int| 0 <= j < ps.len() implies #[trigger] ps@[j].id@
                    == task_ids(post)[j] && ps@[j]@ == proj_fold(post, task_ids(post)[j]) by {
                    if j == k {
                        assert(task_ids(post)[j] == tid@);
                        assert(ps@[j]@ == proj_step(proj_fold(pre, tid@), *e));
                        assert(proj_fold(post, tid@) == proj_step(proj_fold(pre, tid@), *e));
                    } else {
                        assert(ps@[j] == before[j]);
                        assert(task_ids(post)[j] == task_ids(pre)[j]);
                        assert(task_ids(pre)[j] != tid@);
                    }
                }
            },
        }
        assert(ps.len() == task_ids(post).len());
        assert(forall|j: int|
            0 <= j < ps.len() ==> #[trigger] ps@[j].id@ == task_ids(post)[j] && ps@[j]@
                == proj_fold(post, task_ids(post)[j]));
        i = i + 1;
        assert(log@.take(i as int) == post);
    }
    assert(log@.take(log.len() as int) == log@);
    assert(forall|j: int|
        0 <= j < ps.len() ==> #[trigger] ps@[j].id@ == task_ids(log@)[j] && ps@[j]@
            == proj_fold(log@, task_ids(log@)[j]));
    ps
}

} // verus!

verus! {

/// Tasks in `s` are ordered by id, newest (greatest) first.
pub open spec fn sorted_desc(s: Seq<TaskProjection>) -> bool {
    forall|i: int, j: int| 0 <= i < j < s.len() ==> lex_lt(#[trigger] s[j].id@, #[trigger] s[i].id@)
}

/// Some entry of `s` has id `t`.
pub open spec fn has_id(s: Seq<TaskProjection>, t: Seq<char>) -> bool {
    exists|i: int| 0 <= i < s.len() && #[trigger] s[i].id@ == t
}

proof fn lemma_insert_has_id(s: Seq<TaskProjection>, p: int, x: TaskProjection, t: Seq<char>)
    requires
        0 <= p <= s.len(),
    ensures
        has_id(s.insert(p, x), t) <==> (has_id(s, t) || x.id@ == t),
{
    let n = s.insert(p, x);
    if has_id(n, t) {
        let i = choose|i: int| 0 <= i < n.len() && #[trigger] n[i].id@ == t;
        if i < p {
            assert(s[i].id@ == t);
        } else if i > p {
            assert(s[i - 1].id@ == t);
        }
    }
    if has_id(s, t) {
        let i = choose|i: int| 0 <= i < s.len() && #[trigger] s[i].id@ == t;
        if i < p {
            assert(n[i].id@ == t);
        } else {
            assert(n[i + 1].id@ == t);
        }
    }
    if x.id@ == t {
        assert(n[p].id@ == t);
    }
}

/// Insert `x` into the id-descending vector `out`, keeping it sorted.
/// Returns the position `x` was inserted at.
pub fn insert_by_id_desc(out: &mut Vec<TaskProjection>, x: TaskProjection) -> (p: usize)
    requires
        sorted_desc(old(out)@),
        forall|i: int| 0 <= i < old(out)@.len() ==> #[trigger] old(out)@[i].id@ != x.id@,
    ensures
        p <= old(out)@.len(),
        final(out)@ == old(out)@.insert(p as int, x),
        sorted_desc(final(out)@),
{
    let mut k: usize = 0;
    while k < out.len() && !str_lex_lt(out[k].id.as_str(), x.id.as_str())
        invariant
            k <= out.len(),
            forall|j: int| 0 <= j < k ==> lex_lt(x.id@, #[trigger] out@[j].id@),
            forall|i: int| 0 <= i < out@.len() ==> #[trigger] out@[i].id@ != x.id@,
        decreases out.len() - k,
    {
        proof {
            lemma_lex_total(x.id@, out@[k as int].id@);
        }
        k = k + 1;
    }
    let ghost before = out@;
    proof {
        assert forall|j: int| k <= j < before.len() implies lex_lt(#[trigger] before[j].id@, x.id@) by {
            if j > k {
                assert(lex_lt(before[j].id@, before[k as int].id@));
                lemma_lex_transitive(before[j].id@, before[k as int].id@, x.id@);
            }
        }
    }
    out.insert(k, x);
    proof {
        let n = out@;
        assert forall|a: int, b: int| 0 <= a < b < n.len() implies lex_lt(
            #[trigger] n[b].id@,
            #[trigger] n[a].id@,
        ) by {
            if b < k {
                assert(n[a] == before[a] && n[b] == before[b]);
            } else if b == k {
                assert(n[a] == before[a]);
            } else if a < k {
                assert(n[a] == before[a] && n[b] == before[b - 1]);
                if a < b - 1 {
                    lemma_lex_transitive(before[b - 1].id@, x.id@, before[a].id@);
                }
                if a == b - 1 {
                    lemma_lex_transitive(before[b - 1].id@, x.id@, before[a].id@);
                }
            } else if a == k {
                assert(n[b] == before[b - 1]);
            } else {
                assert(n[a] == before[a - 1] && n[b] == before[b - 1]);
            }
        }
    }
    k
}

/// A task is listed on the board when it has a title and, when a board
/// filter is given, was created on that board or on no board.
pub open spec fn on_board(p: ProjView, board: Option<Seq<char>>) -> bool {
    p.title.len() > 0 && match board {
        None => true,
        Some(b) => p.board_id == Some(b) || p.board_id is None,
    }
}

/// Whether a projection passes the board filter.
fn board_keeps(p: &TaskProjection, board: Option<&str>) -> (r: bool)
    ensures
        r == on_board(p@, match board {
            Some(b) => Some(b@),
            None => None,
        }),
{
    if p.title.as_str().is_empty() {
        return false;
    }
    match board {
        None => true,
        Some(b) => match &p.board_id {
            Some(t) => str_eq(t.as_str(), b),
            None => true,
        },
    }
}

/// The board list (`GET /api/tasks/board`): every task with a title (and,
/// with a filter, on that board or on none), projected from the log, newest
/// id first.
#[verifier::spinoff_prover]
pub fn board_tasks(log: &Vec<EventEnvelope>, board: Option<&str>) -> (r: Vec<TaskProjection>)
    ensures
        sorted_desc(r@),
        forall|i: int|
            0 <= i < r.len() ==> #[trigger] r@[i]@ == proj_fold(log@, r@[i].id@),
        forall|t: Seq<char>|
            has_id(r@, t) <==> task_ids(log@).contains(t) && on_board(
                proj_fold(log@, t),
                match board {
                    Some(b) => Some(b@),
                    None => None,
                },
            ),
{
    let ghost bv = match board {
        Some(b) => Some(b@),
        None => None,
    };
    let mut ps = project_tasks(log);
    let ghost all = ps@;
    let ghost ids = task_ids(log@);
    proof {
        lemma_task_ids_distinct(log@);
    }
    let mut out: Vec<TaskProjection> = Vec::new();
    while ps.len() > 0
        invariant
            all.len() == ids.len(),
            ids == task_ids(log@),
            bv == match board {
                Some(b) => Some(b@),
                None => None,
            },
            ids.no_duplicates(),
            forall|j: int|
                0 <= j < all.len() ==> #[trigger] all[j].id@ == ids[j] && all[j]@ == proj_fold(
                    log@,
                    ids[j],
                ),
            ps.len() <= all.len(),
            ps@ == all.take(ps.len() as int),
            sorted_desc(out@),
            forall|i: int|
                0 <= i < out.len() ==> #[trigger] out@[i]@ == proj_fold(log@, out@[i].id@),
            forall|t: Seq<char>|
                has_id(out@, t) <==> exists|j: int|
                    ps.len() <= j < all.len() && #[trigger] ids[j] == t && on_board(
                        proj_fold(log@, t),
                        bv,
                    ),
        decreases ps.len(),
    {
        let ghost m = ps.len() - 1;
        let ghost prev = ps@;
        let x = ps.pop().unwrap();
        assert(prev[m] == all[m]);
        assert(x == all[m]);
        assert(x == all[m]);
        assert(ps@ == all.take(m));
        if board_keeps(&x, board) {
            proof {
                assert forall|i: int| 0 <= i < out@.len() implies #[trigger] out@[i].id@
                    != x.id@ by {
                    if out@[i].id@ == x.id@ {
                        assert(has_id(out@, x.id@));
                        let j = choose|j: int|
                            m + 1 <= j < all.len() && #[trigger] ids[j] == x.id@ && on_board(
                                proj_fold(log@, x.id@),
                                bv,
                            );
                        assert(ids[j] == ids[m]);
                    }
                }
            }
            let ghost before = out@;
            assert(all[m].id@ == ids[m]);
            assert(all[m]@ == proj_fold(log@, ids[m]));
            assert(on_board(proj_fold(log@, ids[m]), bv));
            let p = insert_by_id_desc(&mut out, x);
            proof {
                assert forall|t: Seq<char>|
                    has_id(out@, t) <==> exists|j: int|
                        m <= j < all.len() && #[trigger] ids[j] == t && on_board(
                            proj_fold(log@, t),
                            bv,
                        ) by {
                    lemma_insert_has_id(before, p as int, all[m], t);
                    if has_id(out@, t) {
                        if t == ids[m] {
                            assert(ids[m] == t);
                        } else {
                            assert(has_id(before, t));
                            let j = choose|j: int|
                                m + 1 <= j < all.len() && #[trigger] ids[j] == t && on_board(
                                    proj_fold(log@, t),
                                    bv,
                                );
                            assert(ids[j] == t);
                        }
                    }
                    if exists|j: int|
                        m <= j < all.len() && #[trigger] ids[j] == t && on_board(
                            proj_fold(log@, t),
                            bv,
                        ) {
                        let j = choose|j: int|
                            m <= j < all.len() && #[trigger] ids[j] == t && on_board(
                                proj_fold(log@, t),
                                bv,
                            );
                        if j > m {
                            assert(ids[j] == t);
                            assert(has_id(before, t));
                        }
                    }
                }
                assert forall|i: int| 0 <= i < out.len() implies #[trigger] out@[i]@ == proj_fold(
                    log@,
                    out@[i].id@,
                ) by {
                    if i < p {
                        assert(out@[i] == before[i]);
                    } else if i > p {
                        assert(out@[i] == before[i - 1]);
                    }
                }
            }
        } else {
            assert(all[m].id@ == ids[m]);
            assert(all[m]@ == proj_fold(log@, ids[m]));
            assert(!on_board(proj_fold(log@, ids[m]), bv));
            proof {
                assert forall|t: Seq<char>|
                    has_id(out@, t) <==> exists|j: int|
                        m <= j < all.len() && #[trigger] ids[j] == t && on_board(
                            proj_fold(log@, t),
                            bv,
                        ) by {
                    if has_id(out@, t) {
                        let j = choose|j: int|
                            m + 1 <= j < all.len() && #[trigger] ids[j] == t && on_board(
                                proj_fold(log@, t),
                                bv,
                            );
                        assert(ids[j] == t);
                    }
                    if exists|j: int|
                        m <= j < all.len() && #[trigger] ids[j] == t && on_board(
                            proj_fold(log@, t),
                            bv,
                        ) {
                        let j = choose|j: int|
                            m <= j < all.len() && #[trigger] ids[j] == t && on_board(
                                proj_fold(log@, t),
                                bv,
                            );
                        assert(j != m);
                        assert(ids[j] == t);
                    }
                }
            }
        }
    }
    proof {
        assert forall|t: Seq<char>|
            has_id(out@, t) <==> ids.contains(t) && on_board(proj_fold(log@, t), bv) by {
            if ids.contains(t) {
                let j = choose|j: int| 0 <= j < ids.len() && ids[j] == t;
                assert(ids[j] == t);
            }
        }
    }
    out
}

} // verus!

verus! {

/// Why a task appears in the triage inbox.
#[derive(Debug, Clone, Copy, PartialEq, Eq, Structural)]
pub enum TriageKind {
    /// The task is blocked.
    Info,
    /// An agent finished and the task waits for a human in planning,
    /// review or testing.
    Decision,
}

/// Triage classification of a projected task, if it belongs in the inbox.
pub open spec fn triage_kind(p: ProjView) -> Option<TriageKind> {
    if p.title.len() == 0 {
        None
    } else if p.status == BoardStatus::Blocked {
        Some(TriageKind::Info)
    } else if p.status == BoardStatus::Waiting && (p.stage == "testing"@ || p.stage == "review"@
        || p.stage == "planning"@) && p.had_agent_completed {
        Some(TriageKind::Decision)
    } else {
        None
    }
}

/// Triage classes of a projection: a titled blocked task is listed for
/// information; a titled task waiting in planning, review or testing after
/// an agent completed needs a decision, and only such a task does; an
/// untitled task is never listed.
pub proof fn law_triage_kinds(p: ProjView)
    ensures
        p.title.len() > 0 && p.status == BoardStatus::Blocked ==> triage_kind(p) == Some(
            TriageKind::Info,
        ),
        p.title.len() > 0 && p.status == BoardStatus::Waiting && p.had_agent_completed && (p.stage
            == "testing"@ || p.stage == "review"@ || p.stage == "planning"@) ==> triage_kind(p)
            == Some(TriageKind::Decision),
        triage_kind(p) == Some(TriageKind::Decision) ==> p.title.len() > 0 && p.status
            == BoardStatus::Waiting && p.had_agent_completed && (p.stage == "testing"@ || p.stage
            == "review"@ || p.stage == "planning"@),
        p.title.len() == 0 ==> triage_kind(p) is None,
{
}

/// When an agent completes on a titled task that stands in planning, review
/// or testing, the task enters the triage inbox as a decision.
pub proof fn law_agent_completion_awaits_decision(
    log: Seq<EventEnvelope>,
    e: EventEnvelope,
    tid: Seq<char>,
    agent_id: String,
    summary: Option<String>,
)
    requires
        e.payload == (DomainEvent::AgentCompleted { agent_id, summary }),
        opt_view(e.task_id) == Some(tid),
        proj_fold(log, tid).title.len() > 0,
        proj_fold(log, tid).stage == "testing"@ || proj_fold(log, tid).stage == "review"@
            || proj_fold(log, tid).stage == "planning"@,
    ensures
        triage_kind(proj_fold(log.push(e), tid)) == Some(TriageKind::Decision),
{
    reveal_strlit("testing");
    reveal_strlit("review");
    reveal_strlit("planning");
    reveal_strlit("deployed");
    assert(log.push(e).drop_last() == log);
    let p = proj_fold(log, tid);
    assert(p.stage != "deployed"@) by {
        if p.stage == "testing"@ {
            assert("testing"@[0] != "deployed"@[0]);
        } else if p.stage == "review"@ {
            assert("review"@[0] != "deployed"@[0]);
        } else {
            assert("planning"@[0] != "deployed"@[0]);
        }
    }
    law_triage_kinds(proj_fold(log.push(e), tid));
}

/// One entry of the triage inbox.
#[derive(Debug, Clone, PartialEq, Eq)]
pub struct TriageItem {
    pub task: TaskProjection,
    pub kind: TriageKind,
}

/// Triage classification of one projection.
pub fn classify_triage(p: &TaskProjection) -> (r: Option<TriageKind>)
    ensures
        r == triage_kind(p@),
{
    if p.title.as_str().is_empty() {
        None
    } else if p.status == BoardStatus::Blocked {
        Some(TriageKind::Info)
    } else if p.status == BoardStatus::Waiting && (str_eq(p.stage.as_str(), "testing") || str_eq(
        p.stage.as_str(),
        "review",
    ) || str_eq(p.stage.as_str(), "planning")) && p.had_agent_completed {
        Some(TriageKind::Decision)
    } else {
        None
    }
}

/// Some triage item is for task `t`.
pub open spec fn triage_has_id(s: Seq<TriageItem>, t: Seq<char>) -> bool {
    exists|i: int| 0 <= i < s.len() && #[trigger] s[i].task.id@ == t
}

/// The triage inbox (`GET /api/tasks/triage`): every task of the log that is
/// blocked, or that waits in planning, review or testing after an agent
/// completed, with its projection.
#[verifier::spinoff_prover]
pub fn triage_items(log: &Vec<EventEnvelope>) -> (r: Vec<TriageItem>)
    ensures
        forall|i: int|
            0 <= i < r.len() ==> #[trigger] r@[i].task@ == proj_fold(log@, r@[i].task.id@)
                && triage_kind(r@[i].task@) == Some(r@[i].kind),
        forall|t: Seq<char>|
            triage_has_id(r@, t) <==> task_ids(log@).contains(t) && triage_kind(
                proj_fold(log@, t),
            ) is Some,
        forall|i: int, j: int|
            0 <= i < j < r.len() ==> #[trigger] r@[i].task.id@ != #[trigger] r@[j].task.id@,
{
    let mut ps = project_tasks(log);
    let ghost all = ps@;
    let ghost ids = task_ids(log@);
    proof {
        lemma_task_ids_distinct(log@);
    }
    let mut out: Vec<TriageItem> = Vec::new();
    while ps.len() > 0
        invariant
            all.len() == ids.len(),
            ids == task_ids(log@),
            ids.no_duplicates(),
            forall|j: int|
                0 <= j < all.len() ==> #[trigger] all[j].id@ == ids[j] && all[j]@ == proj_fold(
                    log@,
                    ids[j],
                ),
            ps.len() <= all.len(),
            ps@ == all.take(ps.len() as int),
            forall|i: int|
                0 <= i < out.len() ==> #[trigger] out@[i].task@ == proj_fold(
                    log@,
                    out@[i].task.id@,
                ) && triage_kind(out@[i].task@) == Some(out@[i].kind),
            forall|i: int, j: int|
                0 <= i < j < out.len() ==> #[trigger] out@[i].task.id@ != #[trigger] out@[j].task.id@,
            forall|t: Seq<char>|
                triage_has_id(out@, t) <==> exists|j: int|
                    ps.len() <= j < all.len() && #[trigger] ids[j] == t && triage_kind(
                        proj_fold(log@, t),
                    ) is Some,
        decreases ps.len(),
    {
        let ghost m = ps.len() - 1;
        let ghost prev = ps@;
        let x = ps.pop().unwrap();
        assert(prev[m] == all[m]);
        assert(x == all[m]);
        assert(all[m].id@ == ids[m]);
        assert(all[m]@ == proj_fold(log@, ids[m]));
        let ghost before = out@;
        match classify_triage(&x) {
            Some(kind) => {
                proof {
                    assert forall|i: int| 0 <= i < before.len() implies #[trigger] before[i].task.id@
                        != x.id@ by {
                        if before[i].task.id@ == x.id@ {
                            assert(triage_has_id(before, x.id@));
                            let j = choose|j: int|
                                m + 1 <= j < all.len() && #[trigger] ids[j] == x.id@ && triage_kind(
                                    proj_fold(log@, x.id@),
                                ) is Some;
                            assert(ids[j] == ids[m]);
                        }
                    }
                }
                out.push(TriageItem { task: x, kind });
                proof {
                    assert forall|t: Seq<char>|
                        triage_has_id(out@, t) <==> exists|j: int|
                            m <= j < all.len() && #[trigger] ids[j] == t && triage_kind(
                                proj_fold(log@, t),
                            ) is Some by {
                        if triage_has_id(out@, t) {
                            let i = choose|i: int| 0 <= i < out@.len() && #[trigger] out@[i].task.id@ == t;
                            if i < before.len() {
                                assert(before[i].task.id@ == t);
                                assert(triage_has_id(before, t));
                                let j = choose|j: int|
                                    m + 1 <= j < all.len() && #[trigger] ids[j] == t && triage_kind(
                                        proj_fold(log@, t),
                                    ) is Some;
                                assert(ids[j] == t);
                            } else {
                                assert(ids[m] == t);
                            }
                        }
                        if exists|j: int|
                            m <= j < all.len() && #[trigger] ids[j] == t && triage_kind(
                                proj_fold(log@, t),
                            ) is Some {
                            let j = choose|j: int|
                                m <= j < all.len() && #[trigger] ids[j] == t && triage_kind(
                                    proj_fold(log@, t),
                                ) is Some;
                            if j > m {
                                assert(ids[j] == t);
                                assert(triage_has_id(before, t));
                                let i = choose|i: int| 0 <= i < before.len() && #[trigger] before[i].task.id@ == t;
                                assert(out@[i].task.id@ == t);
                            } else {
                                assert(out@[before.len() as int].task.id@ == t);
                            }
                        }
                    }
                }
            },
            None => {
                proof {
                    assert forall|t: Seq<char>|
                        triage_has_id(out@, t) <==> exists|j: int|
                            m <= j < all.len() && #[trigger] ids[j] == t && triage_kind(
                                proj_fold(log@, t),
                            ) is Some by {
                        if triage_has_id(out@, t) {
                            let j = choose|j: int|
                                m + 1 <= j < all.len() && #[trigger] ids[j] == t && triage_kind(
                                    proj_fold(log@, t),
                                ) is Some;
                            assert(ids[j] == t);
                        }
                        if exists|j: int|
                            m <= j < all.len() && #[trigger] ids[j] == t && triage_kind(
                                proj_fold(log@, t),
                            ) is Some {
                            let j = choose|j: int|
                                m <= j < all.len() && #[trigger] ids[j] == t && triage_kind(
                                    proj_fold(log@, t),
                                ) is Some;
                            assert(j != m);
                            assert(ids[j] == t);
                        }
                    }
                }
            },
        }
    }
    proof {
        assert forall|t: Seq<char>|
            triage_has_id(out@, t) <==> ids.contains(t) && triage_kind(proj_fold(log@, t)) is Some by {
            if ids.contains(t) {
                let j = choose|j: int| 0 <= j < ids.len() && ids[j] == t;
                assert(ids[j] == t);
            }
        }
    }
    out
}

} // verus!

verus! {

/// Lifecycle label shown on the task detail page.
#[derive(Debug, Clone, Copy, PartialEq, Eq, Structural)]
pub enum DetailState {
    Pending,
    InProgress,
    AwaitingApproval,
    Blocked,
    Completed,
    Failed,
}

/// Text of a detail state as sent to the UI.
pub open spec fn detail_state_text(s: DetailState) -> Seq<char> {
    match s {
        DetailState::Pending => "pending"@,
        DetailState::InProgress => "in_progress"@,
        DetailState::AwaitingApproval => "awaiting_approval"@,
        DetailState::Blocked => "blocked"@,
        DetailState::Completed => "completed"@,
        DetailState::Failed => "failed"@,
    }
}

impl DetailState {
    /// Text sent to the UI.
    pub fn as_str(&self) -> (s: String)
        ensures
            s@ == detail_state_text(*self),
    {
        match self {
            DetailState::Pending => crate::text::string_from_literal("pending"),
            DetailState::InProgress => crate::text::string_from_literal("in_progress"),
            DetailState::AwaitingApproval => crate::text::string_from_literal("awaiting_approval"),
            DetailState::Blocked => crate::text::string_from_literal("blocked"),
            DetailState::Completed => crate::text::string_from_literal("completed"),
            DetailState::Failed => crate::text::string_from_literal("failed"),
        }
    }
}

/// Full detail of one task (`GET /api/tasks/:id`).
#[derive(Debug, Clone, PartialEq, Eq)]
pub struct TaskDetail {
    pub title: String,
    pub description: String,
    pub current_stage: String,
    pub priority: Option<Priority>,
    pub assigned_agent: Option<String>,
    pub agent_name: Option<String>,
    pub state: DetailState,
    pub created_at: String,
    pub updated_at: String,
}

/// Mathematical content of a [`TaskDetail`].
pub struct DetailView {
    pub title: Seq<char>,
    pub description: Seq<char>,
    pub current_stage: Seq<char>,
    pub priority: Option<Priority>,
    pub assigned_agent: Option<Seq<char>>,
    pub agent_name: Option<Seq<char>>,
    pub state: DetailState,
    pub created_at: Seq<char>,
    pub updated_at: Seq<char>,
}

impl View for TaskDetail {
    type V = DetailView;

    open spec fn view(&self) -> DetailView {
        DetailView {
            title: self.title@,
            description: self.description@,
            current_stage: self.current_stage@,
            priority: self.priority,
            assigned_agent: opt_view(self.assigned_agent),
            agent_name: opt_view(self.agent_name),
            state: self.state,
            created_at: self.created_at@,
            updated_at: self.updated_at@,
        }
    }
}

/// Detail before any event.
pub open spec fn detail_init() -> DetailView {
    DetailView {
        title: Seq::empty(),
        description: Seq::empty(),
        current_stage: Seq::empty(),
        priority: None,
        assigned_agent: None,
        agent_name: None,
        state: DetailState::Pending,
        created_at: Seq::empty(),
        updated_at: Seq::empty(),
    }
}

/// Effect of one event on the detail.
pub open spec fn detail_step(d0: DetailView, e: EventEnvelope) -> DetailView {
    let d = DetailView { updated_at: e.timestamp@, ..d0 };
    match e.payload {
        DomainEvent::TaskCreated { title, description, initial_stage, priority, .. } => DetailView {
            title: title@,
            description: description@,
            current_stage: initial_stage@,
            priority: Some(priority),
            created_at: e.timestamp@,
            state: DetailState::Pending,
            ..d
        },
        DomainEvent::TaskStageChanged { to_stage, .. } => DetailView {
            current_stage: to_stage@,
            state: DetailState::InProgress,
            ..d
        },
        DomainEvent::TaskPriorityChanged { to, .. } => DetailView { priority: Some(to), ..d },
        DomainEvent::AgentAssigned { agent_id, agent_name } => DetailView {
            assigned_agent: Some(agent_id@),
            agent_name: Some(agent_name@),
            state: DetailState::InProgress,
            ..d
        },
        DomainEvent::AgentCompleted { .. } => DetailView {
            assigned_agent: None,
            agent_name: None,
            state: DetailState::AwaitingApproval,
            ..d
        },
        DomainEvent::TaskBlocked { .. } => DetailView { state: DetailState::Blocked, ..d },
        DomainEvent::TaskUnblocked { .. } => DetailView {
            state: if d.assigned_agent is Some {
                DetailState::InProgress
            } else {
                DetailState::Pending
            },
            ..d
        },
        DomainEvent::HumanDecision { .. } => DetailView { state: DetailState::InProgress, ..d },
        DomainEvent::TaskCompleted { outcome } => DetailView {
            state: match outcome {
                TaskOutcome::Success => DetailState::Completed,
                TaskOutcome::Rejected { .. } => DetailState::Failed,
                TaskOutcome::Abandoned { .. } => DetailState::Completed,
            },
            ..d
        },
        _ => d,
    }
}

/// Detail after all events of `log`.
pub open spec fn detail_fold(log: Seq<EventEnvelope>) -> DetailView
    decreases log.len(),
{
    if log.len() == 0 {
        detail_init()
    } else {
        detail_step(detail_fold(log.drop_last()), log.last())
    }
}

/// What one more event does to a task's detail: it always becomes the last
/// update; creation sets title, description, stage and priority and leaves
/// the task pending; a priority change sets the priority only; a stage change
/// or a decision puts the task in progress; an assignment records the agent;
/// an agent's completion clears it and awaits approval; blocking blocks;
/// completion ends the task (failed when rejected); output, imports and
/// integration changes touch nothing but the update time.
pub proof fn law_detail_event_effects(log: Seq<EventEnvelope>, e: EventEnvelope)
    ensures
        ({
            let before = detail_fold(log);
            let after = detail_fold(log.push(e));
            let touched = DetailView { updated_at: e.timestamp@, ..before };
            &&& after.updated_at == e.timestamp@
            &&& e.payload matches DomainEvent::TaskCreated {
                title,
                description,
                initial_stage,
                priority,
                ..
            } ==> after.title == title@ && after.description == description@
                && after.current_stage == initial_stage@ && after.priority == Some(priority)
                && after.created_at == e.timestamp@ && after.state == DetailState::Pending
            &&& e.payload matches DomainEvent::TaskPriorityChanged { to, .. } ==> after == (
            DetailView { priority: Some(to), ..touched })
            &&& e.payload matches DomainEvent::TaskStageChanged { to_stage, .. } ==> after == (
            DetailView { current_stage: to_stage@, state: DetailState::InProgress, ..touched })
            &&& e.payload matches DomainEvent::AgentAssigned { agent_id, agent_name } ==> after == (
            DetailView {
                assigned_agent: Some(agent_id@),
                agent_name: Some(agent_name@),
                state: DetailState::InProgress,
                ..touched
            })
            &&& e.payload is AgentCompleted ==> after == (DetailView {
                assigned_agent: None,
                agent_name: None,
                state: DetailState::AwaitingApproval,
                ..touched
            })
            &&& e.payload is TaskBlocked ==> after == (DetailView {
                state: DetailState::Blocked,
                ..touched
            })
            &&& e.payload is HumanDecision ==> after == (DetailView {
                state: DetailState::InProgress,
                ..touched
            })
            &&& e.payload matches DomainEvent::TaskCompleted { outcome } ==> after == (DetailView {
                state: if outcome is Rejected {
                    DetailState::Failed
                } else {
                    DetailState::Completed
                },
                ..touched
            })
            &&& e.payload is AgentOutput || e.payload is TaskImported
                || e.payload is IntegrationConfigured ==> after == touched
        }),
{
    assert(log.push(e).drop_last() == log);
}

fn apply_detail_event(d: &mut TaskDetail, e: &EventEnvelope)
    ensures
        final(d)@ == detail_step(old(d)@, *e),
{
    d.updated_at = e.timestamp.clone();
    match &e.payload {
        DomainEvent::TaskCreated { title, description, initial_stage, priority, .. } => {
            d.title = title.clone();
            d.description = description.clone();
            d.current_stage = initial_stage.clone();
            d.priority = Some(*priority);
            d.created_at = e.timestamp.clone();
            d.state = DetailState::Pending;
        },
        DomainEvent::TaskStageChanged { to_stage, .. } => {
            d.current_stage = to_stage.clone();
            d.state = DetailState::InProgress;
        },
        DomainEvent::TaskPriorityChanged { to, .. } => {
            d.priority = Some(*to);
        },
        DomainEvent::AgentAssigned { agent_id, agent_name } => {
            d.assigned_agent = Some(agent_id.clone());
            d.agent_name = Some(agent_name.clone());
            d.state = DetailState::InProgress;
        },
        DomainEvent::AgentCompleted { .. } => {
            d.assigned_agent = None;
            d.agent_name = None;
            d.state = DetailState::AwaitingApproval;
        },
        DomainEvent::TaskBlocked { .. } => {
            d.state = DetailState::Blocked;
        },
        DomainEvent::TaskUnblocked { .. } => {
            d.state = if d.assigned_agent.is_some() {
                DetailState::InProgress
            } else {
                DetailState::Pending
            };
        },
        DomainEvent::HumanDecision { .. } => {
            d.state = DetailState::InProgress;
        },
        DomainEvent::TaskCompleted { outcome } => {
            d.state = match outcome {
                TaskOutcome::Success => DetailState::Completed,
                TaskOutcome::Rejected { .. } => DetailState::Failed,
                TaskOutcome::Abandoned { .. } => DetailState::Completed,
            };
        },
        _ => {},
    }
}

/// Detail of a task from its events (`GET /api/tasks/:id`); `None` (not
/// found) when the task has no events.
pub fn task_detail(events: &Vec<EventEnvelope>) -> (r: Option<TaskDetail>)
    ensures
        events.len() == 0 ==> r is None,
        events.len() > 0 ==> r is Some && r->0@ == detail_fold(events@),
{
    if events.len() == 0 {
        return None;
    }
    let mut d = TaskDetail {
        title: String::new(),
        description: String::new(),
        current_stage: String::new(),
        priority: None,
        assigned_agent: None,
        agent_name: None,
        state: DetailState::Pending,
        created_at: String::new(),
        updated_at: String::new(),
    };
    let mut i: usize = 0;
    while i < events.len()
        invariant
            i <= events.len(),
            d@ == detail_fold(events@.take(i as int)),
        decreases events.len() - i,
    {
        assert(events@.take(i + 1).drop_last() == events@.take(i as int));
        apply_detail_event(&mut d, &events[i]);
        i = i + 1;
    }
    assert(events@.take(events.len() as int) == events@);
    Some(d)
}

} // verus!

verus! {

/// One entry of a task's activity timeline.
#[derive(Debug, Clone, PartialEq, Eq)]
pub struct TimelineEntry {
    pub id: String,
    pub timestamp: String,
    pub event_type: String,
    pub actor: String,
    pub description: String,
}

/// Text of a decision kind.
pub open spec fn decision_text(d: HumanDecisionKind) -> Seq<char> {
    match d {
        HumanDecisionKind::Approved => "approved"@,
        HumanDecisionKind::Rejected { .. } => "rejected"@,
        HumanDecisionKind::Redirected { .. } => "redirected"@,
    }
}

/// Agent output shown in the timeline: at most its first 80 bytes, followed
/// by an ellipsis when cut.
pub open spec fn shown_output(output: String) -> Seq<char> {
    if encode_utf8(output@).len() > 80 {
        decode_utf8(encode_utf8(output@).take(80)) + "…"@
    } else {
        output@
    }
}

/// Agent output can be shown: it is short or its 80th byte ends a
/// character (and its length fits in memory).
pub open spec fn output_cuttable(e: EventEnvelope) -> bool {
    match e.payload {
        DomainEvent::AgentOutput { output, .. } => encode_utf8(output@).len() <= usize::MAX && (
        encode_utf8(output@).len() <= 80 || is_char_boundary(encode_utf8(output@), 80)),
        _ => true,
    }
}

/// `(event_type, actor, description)` of a timeline entry for an event.
pub open spec fn timeline_text(e: DomainEvent) -> (Seq<char>, Seq<char>, Seq<char>) {
    match e {
        DomainEvent::TaskCreated { initial_stage, priority, .. } => (
            "task_created"@,
            "system"@,
            "Task created in "@ + initial_stage@ + " with "@ + priority_text(priority) + " priority"@,
        ),
        DomainEvent::TaskStageChanged { from_stage, to_stage, .. } => (
            "task_stage_changed"@,
            "system"@,
            "Moved from "@ + from_stage@ + " to "@ + to_stage@,
        ),
        DomainEvent::AgentAssigned { agent_name, .. } => (
            "agent_assigned"@,
            agent_name@,
            "Agent "@ + agent_name@ + " assigned"@,
        ),
        DomainEvent::AgentOutput { agent_id, output } => (
            "agent_output"@,
            agent_id@,
            "Agent output: "@ + shown_output(output),
        ),
        DomainEvent::AgentCompleted { agent_id, summary } => (
            "agent_completed"@,
            agent_id@,
            "Agent completed: "@ + match summary {
                Some(s) => s@,
                None => "work complete"@,
            },
        ),
        DomainEvent::TaskBlocked { reason } => ("task_blocked"@, "system"@, "Blocked: "@ + reason@),
        DomainEvent::TaskUnblocked { resolution } => (
            "task_unblocked"@,
            "system"@,
            "Unblocked: "@ + match resolution {
                Some(r) => r@,
                None => "resolved"@,
            },
        ),
        DomainEvent::HumanDecision { decided_by, decision, .. } => (
            "human_decision"@,
            "human"@,
            decided_by@ + ": "@ + decision_text(decision),
        ),
        DomainEvent::TaskPriorityChanged { from, to } => (
            "task_priority_changed"@,
            "system"@,
            "Priority changed from "@ + priority_text(from) + " to "@ + priority_text(to),
        ),
        DomainEvent::TaskCompleted { .. } => ("task_completed"@, "system"@, "Task completed"@),
        DomainEvent::TaskImported { .. } => ("unknown"@, "system"@, "taskimported"@),
        DomainEvent::IntegrationConfigured => ("unknown"@, "system"@, "integrationconfigured"@),
    }
}

fn decision_string(d: &HumanDecisionKind) -> (s: String)
    ensures
        s@ == decision_text(*d),
{
    match d {
        HumanDecisionKind::Approved => string_from_literal("approved"),
        HumanDecisionKind::Rejected { .. } => string_from_literal("rejected"),
        HumanDecisionKind::Redirected { .. } => string_from_literal("redirected"),
    }
}

fn output_shown(output: &String) -> (s: String)
    requires
        encode_utf8(output@).len() <= usize::MAX,
        encode_utf8(output@).len() <= 80 || is_char_boundary(
            encode_utf8(output@),
            80,
        ),
    ensures
        s@ == shown_output(*output),
{
    let o = output.as_str();
    if o.len() > 80 {
        let (head, _rest) = o.split_at(80);
        proof {
            assert(o@ == output@);
            assert(encode_utf8(head@) =~= encode_utf8(o@).take(80));
            vstd::utf8::encode_utf8_decode_utf8(head@);
            assert(head@ == decode_utf8(encode_utf8(output@).take(80)));
        }
        let r = concat2(head, "…");
        assert(r@ == decode_utf8(encode_utf8(output@).take(80)) + "…"@);
        r
    } else {
        output.clone()
    }
}

/// Timeline text of one event.
pub fn timeline_entry_text(e: &DomainEvent) -> (r: (String, String, String))
    requires
        output_cuttable(EventEnvelope {
            id: arbitrary(),
            task_id: arbitrary(),
            project_id: arbitrary(),
            session_id: arbitrary(),
            timestamp: arbitrary(),
            caused_by: arbitrary(),
            payload: *e,
        }),
    ensures
        (r.0@, r.1@, r.2@) == timeline_text(*e),
{
    match e {
        DomainEvent::TaskCreated { initial_stage, priority, .. } => {
            let p = priority.as_lower();
            let mut d = concat3("Task created in ", initial_stage.as_str(), " with ");
            push_str(&mut d, p.as_str());
            push_str(&mut d, " priority");
            (string_from_literal("task_created"), string_from_literal("system"), d)
        },
        DomainEvent::TaskStageChanged { from_stage, to_stage, .. } => {
            let mut d = concat3("Moved from ", from_stage.as_str(), " to ");
            push_str(&mut d, to_stage.as_str());
            (string_from_literal("task_stage_changed"), string_from_literal("system"), d)
        },
        DomainEvent::AgentAssigned { agent_name, .. } => {
            let d = concat3("Agent ", agent_name.as_str(), " assigned");
            (string_from_literal("agent_assigned"), agent_name.clone(), d)
        },
        DomainEvent::AgentOutput { agent_id, output } => {
            let shown = output_shown(output);
            let d = concat2("Agent output: ", shown.as_str());
            (string_from_literal("agent_output"), agent_id.clone(), d)
        },
        DomainEvent::AgentCompleted { agent_id, summary } => {
            let d = match summary {
                Some(s) => concat2("Agent completed: ", s.as_str()),
                None => concat2("Agent completed: ", "work complete"),
            };
            (string_from_literal("agent_completed"), agent_id.clone(), d)
        },
        DomainEvent::TaskBlocked { reason } => {
            let d = concat2("Blocked: ", reason.as_str());
            (string_from_literal("task_blocked"), string_from_literal("system"), d)
        },
        DomainEvent::TaskUnblocked { resolution } => {
            let d = match resolution {
                Some(r) => concat2("Unblocked: ", r.as_str()),
                None => concat2("Unblocked: ", "resolved"),
            };
            (string_from_literal("task_unblocked"), string_from_literal("system"), d)
        },
        DomainEvent::HumanDecision { decided_by, decision, .. } => {
            let k = decision_string(decision);
            let d = concat3(decided_by.as_str(), ": ", k.as_str());
            (string_from_literal("human_decision"), string_from_literal("human"), d)
        },
        DomainEvent::TaskPriorityChanged { from, to } => {
            let f = from.as_lower();
            let t = to.as_lower();
            let mut d = concat3("Priority changed from ", f.as_str(), " to ");
            push_str(&mut d, t.as_str());
            (string_from_literal("task_priority_changed"), string_from_literal("system"), d)
        },
        DomainEvent::TaskCompleted { .. } => (
            string_from_literal("task_completed"),
            string_from_literal("system"),
            string_from_literal("Task completed"),
        ),
        DomainEvent::TaskImported { .. } => (
            string_from_literal("unknown"),
            string_from_literal("system"),
            string_from_literal("taskimported"),
        ),
        DomainEvent::IntegrationConfigured => (
            string_from_literal("unknown"),
            string_from_literal("system"),
            string_from_literal("integrationconfigured"),
        ),
    }
}

/// The activity timeline of a task (`GET /api/tasks/:id/events`): one entry
/// per event, in log order.
pub fn task_timeline(events: &Vec<EventEnvelope>) -> (r: Vec<TimelineEntry>)
    requires
        forall|i: int| 0 <= i < events.len() ==> output_cuttable(#[trigger] events@[i]),
    ensures
        r.len() == events.len(),
        forall|i: int|
            0 <= i < r.len() ==> #[trigger] r@[i].id@ == events@[i].id@ && r@[i].timestamp@
                == events@[i].timestamp@ && (r@[i].event_type@, r@[i].actor@, r@[i].description@)
                == timeline_text(events@[i].payload),
{
    let mut r: Vec<TimelineEntry> = Vec::new();
    let mut i: usize = 0;
    while i < events.len()
        invariant
            i <= events.len(),
            r.len() == i,
            forall|k: int| 0 <= k < events.len() ==> output_cuttable(#[trigger] events@[k]),
            forall|k: int|
                0 <= k < i ==> #[trigger] r@[k].id@ == events@[k].id@ && r@[k].timestamp@
                    == events@[k].timestamp@ && (r@[k].event_type@, r@[k].actor@, r@[k].description@)
                    == timeline_text(events@[k].payload),
        decreases events.len() - i,
    {
        let e = &events[i];
        assert(output_cuttable(events@[i as int]));
        let (event_type, actor, description) = timeline_entry_text(&e.payload);
        r.push(
            TimelineEntry {
                id: e.id.clone(),
                timestamp: e.timestamp.clone(),
                event_type,
                actor,
                description,
            },
        );
        i = i + 1;
    }
    r
}

} // verus!
