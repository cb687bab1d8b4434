//! Checks and decisions behind the task endpoints: creating a task, moving it
//! between stages and recording a human decision.

use vstd::prelude::*;

use crate::domain::{
    board_status_for_state, priority_text, status_for_state, BoardStatus, DomainEvent, EventEnvelope,
    HumanDecisionKind, Priority, TaskState,
};
use crate::ids::{fresh_ulid_string, now_rfc3339, ulid_text, ulid_to_string};
use crate::projection::opt_view;
use crate::text::{
    concat3, opt_str, contains_str, lower, lower_vec, chars_of, string_from_chars, string_from_literal, trim,
    trim_nonblank, trim_nonblank_str, trim_str, seq_eq,
};

verus! {

/// Why a human decision request was refused.
#[derive(Debug, Clone, PartialEq, Eq)]
pub enum DecisionError {
    /// `kind` is not approved, rejected or redirected.
    InvalidKind,
    /// A redirect without a target stage.
    ToStageRequired,
    /// A redirect to a stage the pipeline does not have.
    UnknownStage(String),
}

/// Normalized decision kind word.
pub open spec fn decision_word(kind: Seq<char>) -> Seq<char> {
    lower(trim(kind))
}

/// The text of an optional reason, trimmed (empty when absent).
pub open spec fn reason_text(reason: Option<Seq<char>>) -> Seq<char> {
    match reason {
        Some(r) => trim(r),
        None => Seq::empty(),
    }
}

/// Who decided: the trimmed `decided_by`, or `"user"` when absent or blank.
pub open spec fn decider(decided_by: Option<Seq<char>>) -> Seq<char> {
    match trim_nonblank(decided_by) {
        Some(d) => d,
        None => "user"@,
    }
}

/// Why a human decision cannot be recorded before its body is parsed.
#[derive(Debug, Clone, Copy, PartialEq, Eq)]
pub enum DecisionPrecondition {
    /// The body has a blank `boardId` (answered with 400).
    BoardRequired,
    /// The task is not waiting for approval (answered with 400).
    NotAwaitingApproval,
}

/// Error text of a failed decision precondition.
pub open spec fn precondition_text(p: DecisionPrecondition) -> Seq<char> {
    match p {
        DecisionPrecondition::BoardRequired => "boardId is required"@,
        DecisionPrecondition::NotAwaitingApproval => "task is not awaiting human approval"@,
    }
}

impl DecisionPrecondition {
    /// The error text sent to the client.
    pub fn message(&self) -> (m: String)
        ensures
            m@ == precondition_text(*self),
    {
        match self {
            DecisionPrecondition::BoardRequired => string_from_literal("boardId is required"),
            DecisionPrecondition::NotAwaitingApproval => string_from_literal(
                "task is not awaiting human approval",
            ),
        }
    }
}

/// The board a decision is made on: its trimmed `boardId`, required.
pub fn decision_board(body: &HumanDecisionBody) -> (r: Result<String, DecisionPrecondition>)
    ensures
        trim(body.board_id@).len() == 0 ==> r == Err::<String, DecisionPrecondition>(
            DecisionPrecondition::BoardRequired,
        ),
        trim(body.board_id@).len() > 0 ==> (r matches Ok(b) && b@ == trim(body.board_id@)),
{
    let b = trim_str(body.board_id.as_str());
    if b.as_str().is_empty() {
        Err(DecisionPrecondition::BoardRequired)
    } else {
        Ok(b)
    }
}

/// A decision is only taken on a task awaiting approval.
pub fn check_awaiting_approval(state: &TaskState) -> (r: Result<(), DecisionPrecondition>)
    ensures
        r is Ok <==> state is AwaitingApproval,
        r is Err ==> r == Err::<(), DecisionPrecondition>(DecisionPrecondition::NotAwaitingApproval),
{
    match state {
        TaskState::AwaitingApproval { .. } => Ok(()),
        _ => Err(DecisionPrecondition::NotAwaitingApproval),
    }
}

/// Error text of a refused decision (answered with 400).
pub open spec fn decision_error_text(e: DecisionError) -> Seq<char> {
    match e {
        DecisionError::InvalidKind => "kind must be approved, rejected, or redirected"@,
        DecisionError::ToStageRequired => "toStage is required for redirected"@,
        DecisionError::UnknownStage(s) => "unknown stage '"@ + s@ + "'"@,
    }
}

impl DecisionError {
    /// The error text sent to the client.
    pub fn message(&self) -> (m: String)
        ensures
            m@ == decision_error_text(*self),
    {
        match self {
            DecisionError::InvalidKind => string_from_literal(
                "kind must be approved, rejected, or redirected",
            ),
            DecisionError::ToStageRequired => string_from_literal("toStage is required for redirected"),
            DecisionError::UnknownStage(s) => concat3("unknown stage '", s.as_str(), "'"),
        }
    }
}

/// Body of `POST /api/tasks/:id/decision`: a human approve, reject or
/// redirect while a task awaits approval.
#[derive(Debug, Clone, PartialEq, Eq)]
pub struct HumanDecisionBody {
    pub board_id: String,
    /// `"approved"`, `"rejected"`, or `"redirected"`.
    pub kind: String,
    pub reason: Option<String>,
    pub to_stage: Option<String>,
    pub decided_by: Option<String>,
}

/// Parse the body of `POST /api/tasks/:id/decision` into the decider and
/// the decision. `stages` are the stage names of the board's pipeline.
///
/// `kind` is matched case-insensitively after trimming; rejections and
/// redirects carry the trimmed reason; a redirect needs a non-blank target
/// stage that the pipeline has.
pub fn parse_human_decision(body: &HumanDecisionBody, stages: &Vec<String>) -> (r: Result<
    (String, HumanDecisionKind),
    DecisionError,
>)
    ensures
        ({
            let w = decision_word(body.kind@);
            let rs = reason_text(
                opt_view(body.reason),
            );
            let to = trim_nonblank(
                opt_view(body.to_stage),
            );
            let who = decider(
                opt_view(body.decided_by),
            );
            if w == "approved"@ {
                r matches Ok((d, HumanDecisionKind::Approved)) && d@ == who
            } else if w == "rejected"@ {
                r matches Ok((d, HumanDecisionKind::Rejected { reason: x })) && d@ == who && x@
                    == rs
            } else if w == "redirected"@ {
                match to {
                    None => r == Err::<(String, HumanDecisionKind), DecisionError>(
                        DecisionError::ToStageRequired,
                    ),
                    Some(t) => if exists|i: int| 0 <= i < stages.len() && #[trigger] stages@[i]@ == t {
                        r matches Ok((d, HumanDecisionKind::Redirected { to_stage: s, reason: x }))
                            && d@ == who && s@ == t && x@ == rs
                    } else {
                        r matches Err(DecisionError::UnknownStage(s)) && s@ == t
                    },
                }
            } else {
                r == Err::<(String, HumanDecisionKind), DecisionError>(DecisionError::InvalidKind)
            }
        }),
{
    proof {
        reveal_strlit("approved");
        reveal_strlit("rejected");
        reveal_strlit("redirected");
    }
    let kt = trim_str(body.kind.as_str());
    let kw = lower_vec(&chars_of(kt.as_str()));
    let approved = chars_of("approved");
    let rejected = chars_of("rejected");
    let redirected = chars_of("redirected");
    let reason_s = match &body.reason {
        Some(r) => trim_str(r.as_str()),
        None => String::new(),
    };
    assert(kw@ == decision_word(body.kind@));
    let ghost who_v = decider(
        opt_view(body.decided_by),
    );
    assert(reason_s@ == reason_text(
        opt_view(body.reason),
    ));
    let who = match trim_nonblank_str(opt_str(&body.decided_by)) {
        Some(d) => d,
        None => string_from_literal("user"),
    };
    assert(who@ == who_v);
    if seq_eq(&kw, &approved) {
        Ok((who, HumanDecisionKind::Approved))
    } else if seq_eq(&kw, &rejected) {
        Ok((who, HumanDecisionKind::Rejected { reason: reason_s }))
    } else if seq_eq(&kw, &redirected) {
        match trim_nonblank_str(opt_str(&body.to_stage)) {
            None => Err(DecisionError::ToStageRequired),
            Some(t) => {
                if contains_str(stages, t.as_str()) {
                    Ok((who, HumanDecisionKind::Redirected { to_stage: t, reason: reason_s }))
                } else {
                    Err(DecisionError::UnknownStage(t))
                }
            },
        }
    } else {
        Err(DecisionError::InvalidKind)
    }
}

} // verus!

verus! {

/// Why a stage move was refused.
#[derive(Debug, Clone, PartialEq, Eq)]
pub enum MoveError {
    /// `toStage` or `boardId` is blank.
    MissingFields,
    /// The target stage is not in the board's pipeline.
    UnknownStage(String),
    /// The task has reached a terminal state.
    Terminal,
    /// The task already is in the target stage.
    SameStage,
}

/// Error text of a refused move (answered with 400).
pub open spec fn move_error_text(e: MoveError) -> Seq<char> {
    match e {
        MoveError::MissingFields => "toStage and boardId are required"@,
        MoveError::UnknownStage(s) => "unknown stage '"@ + s@ + "'"@,
        MoveError::Terminal => "task is in a terminal state"@,
        MoveError::SameStage => "task is already in this stage"@,
    }
}

impl MoveError {
    /// The error text sent to the client.
    pub fn message(&self) -> (m: String)
        ensures
            m@ == move_error_text(*self),
    {
        match self {
            MoveError::MissingFields => string_from_literal("toStage and boardId are required"),
            MoveError::UnknownStage(s) => concat3("unknown stage '", s.as_str(), "'"),
            MoveError::Terminal => string_from_literal("task is in a terminal state"),
            MoveError::SameStage => string_from_literal("task is already in this stage"),
        }
    }
}

/// Body of `POST /api/tasks/:id/move`: a persisted stage change.
#[derive(Debug, Clone, PartialEq, Eq)]
pub struct MoveTaskBody {
    pub to_stage: String,
    pub board_id: String,
}

/// Trimmed `(to_stage, board_id)` of a move request, both required.
pub fn check_move_fields(body: &MoveTaskBody) -> (r: Result<(String, String), MoveError>)
    ensures
        (trim(body.to_stage@).len() == 0 || trim(body.board_id@).len() == 0) ==> r == Err::<
            (String, String),
            MoveError,
        >(MoveError::MissingFields),
        (trim(body.to_stage@).len() > 0 && trim(body.board_id@).len() > 0) ==> (r matches Ok((t, b))
            && t@ == trim(body.to_stage@) && b@ == trim(body.board_id@)),
{
    let t = trim_str(body.to_stage.as_str());
    let b = trim_str(body.board_id.as_str());
    if t.as_str().is_empty() || b.as_str().is_empty() {
        Err(MoveError::MissingFields)
    } else {
        Ok((t, b))
    }
}

/// Whether a move from `from_stage` to `to_stage` may proceed, given the
/// pipeline's stage names and whether the task is terminal. Checks, in
/// order: the target stage exists, the task is not terminal, the stages
/// differ.
pub fn check_move(stages: &Vec<String>, from_stage: &str, to_stage: &str, terminal: bool) -> (r:
    Result<(), MoveError>)
    ensures
        !(exists|i: int| 0 <= i < stages.len() && #[trigger] stages@[i]@ == to_stage@) ==> (r matches Err(
            MoveError::UnknownStage(s),
        ) && s@ == to_stage@),
        (exists|i: int| 0 <= i < stages.len() && #[trigger] stages@[i]@ == to_stage@) ==> r == (
        if terminal {
            Err(MoveError::Terminal)
        } else if from_stage@ == to_stage@ {
            Err(MoveError::SameStage)
        } else {
            Ok(())
        }),
{
    if !contains_str(stages, to_stage) {
        return Err(MoveError::UnknownStage(string_from_literal(to_stage)));
    }
    if terminal {
        Err(MoveError::Terminal)
    } else if crate::text::str_eq(from_stage, to_stage) {
        Err(MoveError::SameStage)
    } else {
        Ok(())
    }
}

/// A new manual task, normalized from the create request.
#[derive(Debug, Clone, PartialEq, Eq)]
pub struct NewTask {
    pub title: String,
    pub stage: String,
    pub description: String,
    pub project: String,
}

/// Body of `POST /api/tasks/create`.
#[derive(Debug, Clone, PartialEq, Eq)]
pub struct CreateTaskRequest {
    pub title: String,
    pub description: Option<String>,
    pub initial_stage: Option<String>,
    pub project_id: Option<String>,
    pub board_id: Option<String>,
}

/// Normalize `POST /api/tasks/create`: the title is trimmed and required;
/// the stage defaults to `backlog`, the description to empty and the
/// project topic to `default`, each after trimming. `None` when the title
/// is blank.
pub fn prepare_new_task(req: &CreateTaskRequest) -> (r: Option<NewTask>)
    ensures
        trim(req.title@).len() == 0 ==> r is None,
        trim(req.title@).len() > 0 ==> (r is Some && r->0.title@ == trim(req.title@) && r->0.stage@ == match trim_nonblank(
            opt_view(req.initial_stage),
        ) {
            Some(s) => s,
            None => "backlog"@,
        } && r->0.description@ == match trim_nonblank(
            opt_view(req.description),
        ) {
            Some(s) => s,
            None => Seq::<char>::empty(),
        } && r->0.project@ == match trim_nonblank(
            opt_view(req.project_id),
        ) {
            Some(s) => s,
            None => "default"@,
        }),
{
    let t = trim_str(req.title.as_str());
    if t.as_str().is_empty() {
        return None;
    }
    let stage = match trim_nonblank_str(opt_str(&req.initial_stage)) {
        Some(s) => s,
        None => string_from_literal("backlog"),
    };
    let description = match trim_nonblank_str(opt_str(&req.description)) {
        Some(s) => s,
        None => String::new(),
    };
    let project = match trim_nonblank_str(opt_str(&req.project_id)) {
        Some(s) => s,
        None => string_from_literal("default"),
    };
    Some(NewTask { title: t, stage, description, project })
}

/// Metadata handed to lifecycle hooks: title, description and lowercase
/// priority of the most recent `TaskCreated` event, or empty texts and
/// `p2` when there is none.
pub open spec fn hook_metadata(log: Seq<EventEnvelope>) -> (Seq<char>, Seq<char>, Seq<char>)
    decreases log.len(),
{
    if log.len() == 0 {
        (Seq::empty(), Seq::empty(), "p2"@)
    } else {
        match log.last().payload {
            DomainEvent::TaskCreated { title, description, priority, .. } => (
                title@,
                description@,
                priority_text(priority),
            ),
            _ => hook_metadata(log.drop_last()),
        }
    }
}

/// Title of the most recent `TaskCreated` event, if any.
pub open spec fn latest_title(log: Seq<EventEnvelope>) -> Option<Seq<char>>
    decreases log.len(),
{
    if log.len() == 0 {
        None
    } else {
        match log.last().payload {
            DomainEvent::TaskCreated { title, .. } => Some(title@),
            _ => latest_title(log.drop_last()),
        }
    }
}

/// Hook metadata of a task's events (see [`hook_metadata`]) and the title
/// used in board updates.
pub fn task_hook_metadata(events: &Vec<EventEnvelope>) -> (r: (String, String, String, Option<String>))
    ensures
        (r.0@, r.1@, r.2@) == hook_metadata(events@),
        opt_view(r.3) == latest_title(events@),
{
    let mut i: usize = events.len();
    assert(events@.take(i as int) == events@);
    while i > 0
        invariant
            i <= events.len(),
            hook_metadata(events@) == hook_metadata(events@.take(i as int)),
            latest_title(events@) == latest_title(events@.take(i as int)),
        decreases i,
    {
        let ghost pre = events@.take(i as int);
        assert(pre.drop_last() == events@.take(i - 1));
        assert(pre.last() == events@[i - 1]);
        match &events[i - 1].payload {
            DomainEvent::TaskCreated { title, description, priority, .. } => {
                return (title.clone(), description.clone(), priority.as_lower(), Some(title.clone()));
            },
            _ => {},
        }
        i = i - 1;
    }
    (String::new(), String::new(), string_from_literal("p2"), None)
}

/// Session and project of the task's latest event: the session id (if any
/// event exists) and the project id, `default` without events.
pub fn latest_session_and_project(events: &Vec<EventEnvelope>) -> (r: (Option<String>, String))
    ensures
        events.len() == 0 ==> r.0 is None && r.1@ == "default"@,
        events.len() > 0 ==> r.0 == Some(events@.last().session_id) && r.1@
            == events@.last().project_id@,
{
    if events.len() == 0 {
        (None, string_from_literal("default"))
    } else {
        let e = &events[events.len() - 1];
        (Some(e.session_id.clone()), e.project_id.clone())
    }
}

/// `e` is an event newly appended for task `task_id` after its events
/// `events`: a fresh event id, no cause, and the session and project of the
/// latest event, or a fresh session in the `default` project without one.
pub open spec fn appended_for_task(e: EventEnvelope, task_id: u128, events: Seq<EventEnvelope>) -> bool {
    &&& e.task_id is Some && e.task_id->0@ == ulid_text(task_id)
    &&& e.caused_by is None
    &&& exists|u: u128| e.id@ == ulid_text(u)
    &&& if events.len() > 0 {
        e.session_id == events.last().session_id && e.project_id@ == events.last().project_id@
    } else {
        (exists|u: u128| e.session_id@ == ulid_text(u)) && e.project_id@ == "default"@
    }
}

/// The event carrying `payload` appended for task `task_id` after its
/// events (see [`appended_for_task`]), stamped with the current time.
pub fn task_event(task_id: u128, events: &Vec<EventEnvelope>, payload: DomainEvent) -> (e: EventEnvelope)
    ensures
        appended_for_task(e, task_id, events@),
        e.payload == payload,
{
    let (session, project) = latest_session_and_project(events);
    let session_id = match session {
        Some(s) => s,
        None => fresh_ulid_string(),
    };
    EventEnvelope {
        id: fresh_ulid_string(),
        task_id: Some(ulid_to_string(task_id)),
        project_id: project,
        session_id,
        timestamp: now_rfc3339(),
        caused_by: None,
        payload,
    }
}

/// The `HumanDecision` event recorded for a decision: the decider, the
/// decision and no note.
pub fn human_decision_event(
    task_id: u128,
    events: &Vec<EventEnvelope>,
    decided_by: String,
    decision: HumanDecisionKind,
) -> (e: EventEnvelope)
    ensures
        appended_for_task(e, task_id, events@),
        e.payload == (DomainEvent::HumanDecision { decided_by, decision, note: None }),
{
    task_event(task_id, events, DomainEvent::HumanDecision { decided_by, decision, note: None })
}

/// The `TaskStageChanged` event recorded for a move from `from_stage` to
/// `to_stage`, with the state the task machine moved to.
pub fn stage_changed_event(
    task_id: u128,
    events: &Vec<EventEnvelope>,
    from_stage: String,
    to_stage: String,
    new_state: TaskState,
) -> (e: EventEnvelope)
    ensures
        appended_for_task(e, task_id, events@),
        e.payload == (DomainEvent::TaskStageChanged { from_stage, to_stage, new_state }),
{
    task_event(task_id, events, DomainEvent::TaskStageChanged { from_stage, to_stage, new_state })
}

/// A task was created without a title (answered with 400).
#[derive(Debug, Clone, Copy, PartialEq, Eq)]
pub struct TitleRequired;

impl TitleRequired {
    /// The error text sent to the client.
    pub fn message(&self) -> (m: String)
        ensures
            m@ == "title is required"@,
    {
        string_from_literal("title is required")
    }
}

/// A task created by `POST /api/tasks/create`: its event and the project
/// topic its board update goes to.
#[derive(Debug, Clone, PartialEq, Eq)]
pub struct CreatedTask {
    pub event: EventEnvelope,
    pub topic: String,
}

/// The `TaskCreated` event of a create request: a fresh task and session in
/// the `default` project, priority P2, the request's board, and the title,
/// description and stage normalized as [`prepare_new_task`] does; the
/// board update goes to the normalized project topic. Refused when the
/// title is blank.
pub fn task_created_event(req: &CreateTaskRequest) -> (r: Result<CreatedTask, TitleRequired>)
    ensures
        trim(req.title@).len() == 0 ==> r == Err::<CreatedTask, TitleRequired>(TitleRequired),
        trim(req.title@).len() > 0 ==> (r matches Ok(c) && {
            let e = c.event;
            &&& e.task_id is Some && (exists|u: u128| e.task_id->0@ == ulid_text(u))
            &&& exists|u: u128| e.id@ == ulid_text(u)
            &&& exists|u: u128| e.session_id@ == ulid_text(u)
            &&& e.project_id@ == "default"@
            &&& e.caused_by is None
            &&& c.topic@ == match trim_nonblank(opt_view(req.project_id)) {
                Some(p) => p,
                None => "default"@,
            }
            &&& e.payload matches DomainEvent::TaskCreated {
                title,
                description,
                initial_stage,
                priority,
                board_id,
            } && title@ == trim(req.title@) && description@ == match trim_nonblank(
                opt_view(req.description),
            ) {
                Some(d) => d,
                None => Seq::<char>::empty(),
            } && initial_stage@ == match trim_nonblank(opt_view(req.initial_stage)) {
                Some(st) => st,
                None => "backlog"@,
            } && priority == Priority::P2 && board_id == req.board_id
        }),
{
    match prepare_new_task(req) {
        None => Err(TitleRequired),
        Some(t) => {
            let task_id = fresh_ulid_string();
            let board_id = match &req.board_id {
                Some(b) => Some(b.clone()),
                None => None,
            };
            let event = EventEnvelope {
                id: fresh_ulid_string(),
                task_id: Some(task_id),
                project_id: string_from_literal("default"),
                session_id: fresh_ulid_string(),
                timestamp: now_rfc3339(),
                caused_by: None,
                payload: DomainEvent::TaskCreated {
                    title: t.title,
                    description: t.description,
                    initial_stage: t.stage,
                    priority: Priority::P2,
                    board_id,
                },
            };
            Ok(CreatedTask { event, topic: t.project })
        },
    }
}

/// Answer of a successful move: the task, its new stage and board status.
#[derive(Debug, Clone, PartialEq, Eq)]
pub struct MoveAnswer {
    pub task_id: String,
    pub stage: String,
    pub status: BoardStatus,
}

/// The answer of a successful move of task `task_id` to `to_stage`, where
/// the task machine reached `new_state`.
pub fn move_answer(task_id: u128, to_stage: String, new_state: &TaskState) -> (a: MoveAnswer)
    ensures
        a.task_id@ == ulid_text(task_id),
        a.stage == to_stage,
        a.status == status_for_state(*new_state),
{
    MoveAnswer { task_id: ulid_to_string(task_id), stage: to_stage, status: board_status_for_state(new_state) }
}

/// Answer of a recorded decision: the task and its board status.
#[derive(Debug, Clone, PartialEq, Eq)]
pub struct DecisionAnswer {
    pub task_id: String,
    pub status: BoardStatus,
}

/// The answer of a recorded decision on task `task_id`, where the task
/// machine reached `new_state`.
pub fn decision_answer(task_id: u128, new_state: &TaskState) -> (a: DecisionAnswer)
    ensures
        a.task_id@ == ulid_text(task_id),
        a.status == status_for_state(*new_state),
{
    DecisionAnswer { task_id: ulid_to_string(task_id), status: board_status_for_state(new_state) }
}

/// What a move or decision does once the lifecycle hooks have run.
#[derive(Debug, Clone, PartialEq, Eq)]
pub enum AfterHooks {
    /// The hooks passed: append the event, then answer.
    Append(EventEnvelope),
    /// A hook failed: append nothing and answer `status` with the error.
    Refuse { status: u16, error: String },
}

/// Decide the step after the lifecycle hooks for the prepared `event`: a
/// hook failure (its message) is answered with 502 and nothing is
/// appended; otherwise the event is appended.
pub fn after_lifecycle_hooks(event: EventEnvelope, hook_failure: Option<String>) -> (r: AfterHooks)
    ensures
        match hook_failure {
            Some(m) => r == AfterHooks::Refuse { status: 502, error: m },
            None => r == AfterHooks::Append(event),
        },
{
    match hook_failure {
        Some(m) => AfterHooks::Refuse { status: 502, error: m },
        None => AfterHooks::Append(event),
    }
}

} // verus!
