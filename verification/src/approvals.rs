//! Human-gated transitions: approval requests, the decisions recorded
//! against them, and the store that keeps them.
//!
//! A request carries a required approval count; it is approved once that
//! many approvals are recorded. A rejection or redirect closes it at once.
//! Each approver decides at most once, and when named approvers are set only
//! they may decide.

use vstd::prelude::*;

use crate::domain::{DomainEvent, HumanDecisionKind};
use crate::ids::{fresh_ulid_string, now_millis};
use crate::text::str_eq;

verus! {

/// Unique identifier of an approval request.
#[derive(Debug, Clone, PartialEq, Eq, Hash)]
pub struct ApprovalId(pub String);

impl ApprovalId {
    /// A fresh id (a new ULID's text).
    pub fn new() -> (r: Self)
        ensures
            exists|u: u128| r.0@ == crate::ids::ulid_text(u),
    {
        ApprovalId(fresh_ulid_string())
    }

    fn duplicate(&self) -> (r: Self)
        ensures
            r == *self,
    {
        ApprovalId(self.0.clone())
    }

    /// The id's text.
    pub fn to_string(&self) -> (s: String)
        ensures
            s@ == self.0@,
    {
        self.0.clone()
    }
}

/// A decision submitted by a human approver.
#[derive(Debug, Clone, PartialEq, Eq)]
pub enum ApprovalDecision {
    Approved { approver: String, comment: Option<String> },
    Rejected { approver: String, reason: String },
    Redirected { approver: String, target_stage: String, reason: String },
}

/// The approver of a decision.
pub open spec fn approver_of(d: ApprovalDecision) -> Seq<char> {
    match d {
        ApprovalDecision::Approved { approver, .. } => approver@,
        ApprovalDecision::Rejected { approver, .. } => approver@,
        ApprovalDecision::Redirected { approver, .. } => approver@,
    }
}

/// The decision is an approval.
pub open spec fn is_approval(d: ApprovalDecision) -> bool {
    d is Approved
}

impl ApprovalDecision {
    /// The approver's identity.
    pub fn approver(&self) -> (a: &str)
        ensures
            a@ == approver_of(*self),
    {
        match self {
            ApprovalDecision::Approved { approver, .. } => approver.as_str(),
            ApprovalDecision::Rejected { approver, .. } => approver.as_str(),
            ApprovalDecision::Redirected { approver, .. } => approver.as_str(),
        }
    }

    /// The domain decision kind: approved, rejected with the reason, or
    /// redirected to the target stage with the reason.
    pub fn to_domain_kind(&self) -> (k: HumanDecisionKind)
        ensures
            match *self {
                ApprovalDecision::Approved { .. } => k == HumanDecisionKind::Approved,
                ApprovalDecision::Rejected { reason, .. } => k == HumanDecisionKind::Rejected {
                    reason,
                },
                ApprovalDecision::Redirected { target_stage, reason, .. } => k
                    == HumanDecisionKind::Redirected { to_stage: target_stage, reason },
            },
    {
        match self {
            ApprovalDecision::Approved { .. } => HumanDecisionKind::Approved,
            ApprovalDecision::Rejected { reason, .. } => HumanDecisionKind::Rejected {
                reason: reason.clone(),
            },
            ApprovalDecision::Redirected { target_stage, reason, .. } => {
                HumanDecisionKind::Redirected {
                    to_stage: target_stage.clone(),
                    reason: reason.clone(),
                }
            },
        }
    }

    /// Note for the `HumanDecision` event: the approval comment, or the
    /// rejection / redirect reason.
    pub fn note(&self) -> (n: Option<String>)
        ensures
            match *self {
                ApprovalDecision::Approved { comment, .. } => n == comment,
                ApprovalDecision::Rejected { reason, .. } => n == Some(reason),
                ApprovalDecision::Redirected { reason, .. } => n == Some(reason),
            },
    {
        match self {
            ApprovalDecision::Approved { comment, .. } => crate::domain::clone_opt(comment),
            ApprovalDecision::Rejected { reason, .. } => Some(reason.clone()),
            ApprovalDecision::Redirected { reason, .. } => Some(reason.clone()),
        }
    }

    fn duplicate(&self) -> (r: Self)
        ensures
            r == *self,
    {
        match self {
            ApprovalDecision::Approved { approver, comment } => ApprovalDecision::Approved {
                approver: approver.clone(),
                comment: crate::domain::clone_opt(comment),
            },
            ApprovalDecision::Rejected { approver, reason } => ApprovalDecision::Rejected {
                approver: approver.clone(),
                reason: reason.clone(),
            },
            ApprovalDecision::Redirected { approver, target_stage, reason } => {
                ApprovalDecision::Redirected {
                    approver: approver.clone(),
                    target_stage: target_stage.clone(),
                    reason: reason.clone(),
                }
            },
        }
    }
}

/// Lifecycle state of an approval request.
#[derive(Debug, Clone, PartialEq, Eq)]
pub enum ApprovalStatus {
    Pending,
    Approved,
    Rejected { reason: String },
    Redirected { target_stage: String },
}

/// One decision recorded against a request; `recorded_at` is in
/// milliseconds since the Unix epoch.
#[derive(Debug, Clone, PartialEq, Eq)]
pub struct ApprovalRecord {
    pub approver: String,
    pub decision: ApprovalDecision,
    pub recorded_at: i64,
}

/// Outstanding approval requirement of one task. Times are in
/// milliseconds since the Unix epoch.
#[derive(Debug, Clone, PartialEq, Eq)]
pub struct ApprovalRequest {
    pub id: ApprovalId,
    pub task_id: String,
    pub session_id: String,
    pub stage: String,
    pub required_count: usize,
    pub required_approvers: Vec<String>,
    pub created_at: i64,
    pub timeout_at: Option<i64>,
    pub decisions: Vec<ApprovalRecord>,
    pub status: ApprovalStatus,
}

/// Mathematical content of an [`ApprovalRequest`].
pub struct RequestView {
    pub id: ApprovalId,
    pub task_id: String,
    pub session_id: String,
    pub stage: String,
    pub required_count: usize,
    pub required_approvers: Seq<String>,
    pub created_at: i64,
    pub timeout_at: Option<i64>,
    pub decisions: Seq<ApprovalRecord>,
    pub status: ApprovalStatus,
}

impl View for ApprovalRequest {
    type V = RequestView;

    open spec fn view(&self) -> RequestView {
        RequestView {
            id: self.id,
            task_id: self.task_id,
            session_id: self.session_id,
            stage: self.stage,
            required_count: self.required_count,
            required_approvers: self.required_approvers@,
            created_at: self.created_at,
            timeout_at: self.timeout_at,
            decisions: self.decisions@,
            status: self.status,
        }
    }
}

/// Number of approvals among `ds`.
pub open spec fn count_approvals(ds: Seq<ApprovalRecord>) -> nat
    decreases ds.len(),
{
    if ds.len() == 0 {
        0
    } else {
        count_approvals(ds.drop_last()) + if is_approval(ds.last().decision) {
            1nat
        } else {
            0nat
        }
    }
}

/// `a` has recorded a decision in `ds`.
pub open spec fn decided(ds: Seq<ApprovalRecord>, a: Seq<char>) -> bool {
    exists|i: int| 0 <= i < ds.len() && #[trigger] ds[i].approver@ == a
}

/// `a` may decide on a request with these named approvers.
pub open spec fn authorised(named: Seq<String>, a: Seq<char>) -> bool {
    named.len() == 0 || exists|i: int| 0 <= i < named.len() && #[trigger] named[i]@ == a
}

/// Status after recording `d` on a pending request whose decisions, `d`
/// included, are `ds`.
pub open spec fn status_after(required: usize, ds: Seq<ApprovalRecord>, d: ApprovalDecision) -> ApprovalStatus {
    match d {
        ApprovalDecision::Rejected { reason, .. } => ApprovalStatus::Rejected { reason },
        ApprovalDecision::Redirected { target_stage, .. } => ApprovalStatus::Redirected {
            target_stage,
        },
        ApprovalDecision::Approved { .. } => if count_approvals(ds) >= required {
            ApprovalStatus::Approved
        } else {
            ApprovalStatus::Pending
        },
    }
}

fn clone_strings(v: &Vec<String>) -> (r: Vec<String>)
    ensures
        r@ == v@,
{
    let mut r: Vec<String> = Vec::new();
    let mut i: usize = 0;
    while i < v.len()
        invariant
            i <= v.len(),
            r@ == v@.take(i as int),
        decreases v.len() - i,
    {
        r.push(v[i].clone());
        i = i + 1;
        assert(r@ =~= v@.take(i as int));
    }
    assert(v@.take(v.len() as int) == v@);
    r
}

impl ApprovalRecord {
    fn duplicate(&self) -> (r: Self)
        ensures
            r == *self,
    {
        ApprovalRecord {
            approver: self.approver.clone(),
            decision: self.decision.duplicate(),
            recorded_at: self.recorded_at,
        }
    }
}

impl ApprovalStatus {
    fn duplicate(&self) -> (r: Self)
        ensures
            r == *self,
    {
        match self {
            ApprovalStatus::Pending => ApprovalStatus::Pending,
            ApprovalStatus::Approved => ApprovalStatus::Approved,
            ApprovalStatus::Rejected { reason } => ApprovalStatus::Rejected { reason: reason.clone() },
            ApprovalStatus::Redirected { target_stage } => ApprovalStatus::Redirected {
                target_stage: target_stage.clone(),
            },
        }
    }

    /// Whether the request still waits for decisions.
    pub fn is_pending(&self) -> (b: bool)
        ensures
            b == (*self is Pending),
    {
        match self {
            ApprovalStatus::Pending => true,
            _ => false,
        }
    }
}

impl ApprovalRequest {
    /// Number of approvals received so far.
    pub fn approval_count(&self) -> (n: usize)
        ensures
            n == count_approvals(self.decisions@),
    {
        let mut n: usize = 0;
        let mut i: usize = 0;
        while i < self.decisions.len()
            invariant
                i <= self.decisions.len(),
                n == count_approvals(self.decisions@.take(i as int)),
                n <= i,
            decreases self.decisions.len() - i,
        {
            assert(self.decisions@.take(i + 1).drop_last() == self.decisions@.take(i as int));
            match self.decisions[i].decision {
                ApprovalDecision::Approved { .. } => {
                    n = n + 1;
                },
                _ => {},
            }
            i = i + 1;
        }
        assert(self.decisions@.take(self.decisions.len() as int) == self.decisions@);
        n
    }

    /// Names of the approvers who have decided, in order.
    pub fn decided_by(&self) -> (names: Vec<String>)
        ensures
            names.len() == self.decisions.len(),
            forall|i: int| 0 <= i < names.len() ==> #[trigger] names@[i]@ == self.decisions@[i].approver@,
    {
        let mut names: Vec<String> = Vec::new();
        let mut i: usize = 0;
        while i < self.decisions.len()
            invariant
                i <= self.decisions.len(),
                names.len() == i,
                forall|k: int| 0 <= k < i ==> #[trigger] names@[k]@ == self.decisions@[k].approver@,
            decreases self.decisions.len() - i,
        {
            names.push(self.decisions[i].approver.clone());
            i = i + 1;
        }
        names
    }

    /// Whether `approver` has already recorded a decision.
    pub fn has_decided(&self, approver: &str) -> (b: bool)
        ensures
            b == decided(self.decisions@, approver@),
    {
        let mut i: usize = 0;
        while i < self.decisions.len()
            invariant
                i <= self.decisions.len(),
                forall|k: int| 0 <= k < i ==> #[trigger] self.decisions@[k].approver@ != approver@,
            decreases self.decisions.len() - i,
        {
            if str_eq(self.decisions[i].approver.as_str(), approver) {
                return true;
            }
            i = i + 1;
        }
        false
    }

    /// Whether the approval threshold has been reached.
    pub fn threshold_met(&self) -> (b: bool)
        ensures
            b == (count_approvals(self.decisions@) >= self.required_count),
    {
        self.approval_count() >= self.required_count
    }

    /// A copy of the request.
    pub fn duplicate(&self) -> (r: Self)
        ensures
            r@ == self@,
    {
        let mut decisions: Vec<ApprovalRecord> = Vec::new();
        let mut i: usize = 0;
        while i < self.decisions.len()
            invariant
                i <= self.decisions.len(),
                decisions@ == self.decisions@.take(i as int),
            decreases self.decisions.len() - i,
        {
            decisions.push(self.decisions[i].duplicate());
            i = i + 1;
            assert(decisions@ =~= self.decisions@.take(i as int));
        }
        assert(self.decisions@.take(self.decisions.len() as int) == self.decisions@);
        let r = ApprovalRequest {
            id: self.id.duplicate(),
            task_id: self.task_id.clone(),
            session_id: self.session_id.clone(),
            stage: self.stage.clone(),
            required_count: self.required_count,
            required_approvers: clone_strings(&self.required_approvers),
            created_at: self.created_at,
            timeout_at: self.timeout_at,
            decisions,
            status: self.status.duplicate(),
        };
        r
    }
}

} // verus!

verus! {

/// Errors of the approval store.
#[derive(Debug, Clone, PartialEq, Eq)]
pub enum ApprovalStoreError {
    /// No request has the given id.
    NotFound(ApprovalId),
    /// A pending request for the same task already exists.
    AlreadyExists(String),
    /// The approver already decided on this request.
    AlreadyDecided { approver: String, id: ApprovalId },
    /// The request is no longer pending.
    AlreadyClosed(ApprovalId),
    /// The approver is not among the request's named approvers.
    Unauthorised(String),
    /// Storage failure.
    Storage(String),
}

/// Why a decision is refused on a request, checked in this order.
pub enum Refusal {
    Closed,
    AlreadyDecided,
    Unauthorised,
}

/// Refusal of decision `d` on request `r`, or `None` when it is recorded.
pub open spec fn refusal(r: RequestView, d: ApprovalDecision) -> Option<Refusal> {
    if !(r.status is Pending) {
        Some(Refusal::Closed)
    } else if decided(r.decisions, approver_of(d)) {
        Some(Refusal::AlreadyDecided)
    } else if !authorised(r.required_approvers, approver_of(d)) {
        Some(Refusal::Unauthorised)
    } else {
        None
    }
}

/// `rec` records decision `d`.
pub open spec fn records(rec: ApprovalRecord, d: ApprovalDecision) -> bool {
    rec.approver@ == approver_of(d) && rec.decision == d
}

/// Request `r` after recording `d` as `rec`.
pub open spec fn after_decision(r: RequestView, d: ApprovalDecision, rec: ApprovalRecord) -> RequestView {
    RequestView {
        decisions: r.decisions.push(rec),
        status: status_after(r.required_count, r.decisions.push(rec), d),
        ..r
    }
}

/// Requests of `rs` that are pending, in order.
pub open spec fn pending_of(rs: Seq<RequestView>) -> Seq<RequestView>
    decreases rs.len(),
{
    if rs.len() == 0 {
        Seq::empty()
    } else if rs.last().status is Pending {
        pending_of(rs.drop_last()).push(rs.last())
    } else {
        pending_of(rs.drop_last())
    }
}

/// Index `k` is the first request of `rs` with id `id`.
pub open spec fn first_with_id(rs: Seq<RequestView>, id: Seq<char>, k: int) -> bool {
    0 <= k < rs.len() && rs[k].id.0@ == id && forall|j: int| 0 <= j < k ==> #[trigger] rs[j].id.0@ != id
}

/// Index `k` is the first pending request of `rs` for task `task`.
pub open spec fn first_pending_for(rs: Seq<RequestView>, task: Seq<char>, k: int) -> bool {
    0 <= k < rs.len() && rs[k].task_id@ == task && rs[k].status is Pending && forall|j: int|
        0 <= j < k ==> !(#[trigger] rs[j].task_id@ == task && rs[j].status is Pending)
}

/// Some request of `rs` is pending for task `task`.
pub open spec fn has_pending_for(rs: Seq<RequestView>, task: Seq<char>) -> bool {
    exists|j: int| 0 <= j < rs.len() && #[trigger] rs[j].task_id@ == task && rs[j].status is Pending
}

/// In-memory approval store.
pub struct MemoryApprovalStore {
    requests: Vec<ApprovalRequest>,
}

impl View for MemoryApprovalStore {
    type V = Seq<RequestView>;

    closed spec fn view(&self) -> Seq<RequestView> {
        self.requests@.map_values(|r: ApprovalRequest| r@)
    }
}

impl MemoryApprovalStore {
    /// A store with no requests.
    pub fn new() -> (s: Self)
        ensures
            s@.len() == 0,
    {
        let s = MemoryApprovalStore { requests: Vec::new() };
        assert(s@ =~= Seq::<RequestView>::empty());
        s
    }

    /// Persist a new request. Refused with `AlreadyExists` when the store
    /// holds a pending request for the same task.
    pub fn create(&mut self, request: ApprovalRequest) -> (r: Result<(), ApprovalStoreError>)
        ensures
            has_pending_for(old(self)@, request.task_id@) ==> (r matches Err(
                ApprovalStoreError::AlreadyExists(t),
            ) && t@ == request.task_id@ && final(self)@ == old(self)@),
            !has_pending_for(old(self)@, request.task_id@) ==> (r is Ok && final(self)@
                == old(self)@.push(request@)),
    {
        let mut i: usize = 0;
        while i < self.requests.len()
            invariant
                i <= self.requests.len(),
                self@ == old(self)@,
                forall|j: int|
                    0 <= j < i ==> !(#[trigger] self@[j].task_id@ == request.task_id@ && self@[j].status is Pending),
            decreases self.requests.len() - i,
        {
            assert(self@[i as int] == self.requests@[i as int]@);
            if str_eq(self.requests[i].task_id.as_str(), request.task_id.as_str())
                && self.requests[i].status.is_pending() {
                assert(self@[i as int].task_id@ == request.task_id@ && self@[i as int].status is Pending);
                assert(has_pending_for(old(self)@, request.task_id@));
                return Err(ApprovalStoreError::AlreadyExists(request.task_id.clone()));
            }
            i = i + 1;
        }
        let ghost before = self@;
        self.requests.push(request);
        assert(self@ =~= before.push(request@));
        Ok(())
    }

    fn index_of(&self, id: &ApprovalId) -> (r: Option<usize>)
        ensures
            match r {
                Some(k) => first_with_id(self@, id.0@, k as int),
                None => forall|j: int| 0 <= j < self@.len() ==> #[trigger] self@[j].id.0@ != id.0@,
            },
    {
        let mut k: usize = 0;
        while k < self.requests.len()
            invariant
                k <= self.requests.len(),
                forall|j: int| 0 <= j < k ==> #[trigger] self@[j].id.0@ != id.0@,
            decreases self.requests.len() - k,
        {
            assert(self@[k as int] == self.requests@[k as int]@);
            if str_eq(self.requests[k].id.0.as_str(), id.0.as_str()) {
                return Some(k);
            }
            k = k + 1;
        }
        None
    }

    /// The request with the given id (the first, should ids repeat).
    pub fn get(&self, id: &ApprovalId) -> (r: Result<ApprovalRequest, ApprovalStoreError>)
        ensures
            match r {
                Ok(req) => exists|k: int| first_with_id(self@, id.0@, k) && req@ == self@[k],
                Err(e) => e == ApprovalStoreError::NotFound(*id) && forall|j: int|
                    0 <= j < self@.len() ==> #[trigger] self@[j].id.0@ != id.0@,
            },
    {
        match self.index_of(id) {
            Some(k) => {
                assert(self@[k as int] == self.requests@[k as int]@);
                Ok(self.requests[k].duplicate())
            },
            None => Err(ApprovalStoreError::NotFound(id.duplicate())),
        }
    }

    /// The pending request for a task, if one exists.
    pub fn get_for_task(&self, task_id: &str) -> (r: Option<ApprovalRequest>)
        ensures
            match r {
                Some(req) => exists|k: int| first_pending_for(self@, task_id@, k) && req@ == self@[k],
                None => !has_pending_for(self@, task_id@),
            },
    {
        let mut k: usize = 0;
        while k < self.requests.len()
            invariant
                k <= self.requests.len(),
                forall|j: int|
                    0 <= j < k ==> !(#[trigger] self@[j].task_id@ == task_id@ && self@[j].status is Pending),
            decreases self.requests.len() - k,
        {
            assert(self@[k as int] == self.requests@[k as int]@);
            if str_eq(self.requests[k].task_id.as_str(), task_id) && self.requests[k].status.is_pending() {
                let r = self.requests[k].duplicate();
                assert(first_pending_for(self@, task_id@, k as int));
                return Some(r);
            }
            k = k + 1;
        }
        None
    }

    /// All pending requests, in creation order.
    pub fn list_pending(&self) -> (r: Vec<ApprovalRequest>)
        ensures
            r@.map_values(|q: ApprovalRequest| q@) == pending_of(self@),
    {
        let mut r: Vec<ApprovalRequest> = Vec::new();
        let mut i: usize = 0;
        while i < self.requests.len()
            invariant
                i <= self.requests.len(),
                r@.map_values(|q: ApprovalRequest| q@) == pending_of(self@.take(i as int)),
            decreases self.requests.len() - i,
        {
            let ghost pre = self@.take(i as int);
            assert(self@.take(i + 1).drop_last() =~= pre);
            assert(self@.take(i + 1).last() == self.requests@[i as int]@);
            let ghost rv = r@.map_values(|q: ApprovalRequest| q@);
            if self.requests[i].status.is_pending() {
                let c = self.requests[i].duplicate();
                r.push(c);
                assert(r@.map_values(|q: ApprovalRequest| q@) =~= rv.push(c@));
            }
            i = i + 1;
        }
        assert(self@.take(self.requests.len() as int) =~= self@);
        r
    }

    /// Record a decision against the request with id `id`. Refused when
    /// there is no such request (`NotFound`), it is closed (`AlreadyClosed`),
    /// the approver already decided (`AlreadyDecided`), or named approvers
    /// exclude the approver (`Unauthorised`). Otherwise the decision is
    /// appended and the status updated: rejections and redirects close the
    /// request, an approval approves it once the threshold is met.
    /// Returns the updated request.
    pub fn record_decision(&mut self, id: &ApprovalId, decision: ApprovalDecision) -> (r: Result<
        ApprovalRequest,
        ApprovalStoreError,
    >)
        ensures
            (forall|j: int| 0 <= j < old(self)@.len() ==> #[trigger] old(self)@[j].id.0@ != id.0@)
                ==> r == Err::<ApprovalRequest, ApprovalStoreError>(
                ApprovalStoreError::NotFound(*id),
            ) && final(self)@ == old(self)@,
            forall|k: int|
                first_with_id(old(self)@, id.0@, k) ==> match refusal(old(self)@[k], decision) {
                    Some(Refusal::Closed) => r == Err::<ApprovalRequest, ApprovalStoreError>(
                        ApprovalStoreError::AlreadyClosed(*id),
                    ) && final(self)@ == old(self)@,
                    Some(Refusal::AlreadyDecided) => (r matches Err(
                        ApprovalStoreError::AlreadyDecided { approver: a, id: i },
                    ) && a@ == approver_of(decision) && i == *id) && final(self)@ == old(self)@,
                    Some(Refusal::Unauthorised) => (r matches Err(
                        ApprovalStoreError::Unauthorised(a),
                    ) && a@ == approver_of(decision)) && final(self)@ == old(self)@,
                    None => exists|rec: ApprovalRecord|
                        records(rec, decision) && final(self)@ == old(self)@.update(
                            k,
                            after_decision(old(self)@[k], decision, rec),
                        ) && (r matches Ok(q) && q@ == after_decision(old(self)@[k], decision, rec)),
                },
            r is Ok ==> exists|k: int|
                first_with_id(old(self)@, id.0@, k) && refusal(old(self)@[k], decision) is None,
            r is Err ==> final(self)@ == old(self)@,
    {
        let k = match self.index_of(id) {
            Some(k) => k,
            None => {
                return Err(ApprovalStoreError::NotFound(id.duplicate()));
            },
        };
        assert(self@[k as int] == self.requests@[k as int]@);
        proof {
            assert forall|k2: int| first_with_id(self@, id.0@, k2) implies k2 == k by {
                if k2 < k {
                    assert(self@[k2].id.0@ != id.0@);
                } else if k2 > k {
                    assert(self@[k as int].id.0@ != id.0@);
                }
            }
        }
        if !self.requests[k].status.is_pending() {
            return Err(ApprovalStoreError::AlreadyClosed(id.duplicate()));
        }
        if self.requests[k].has_decided(decision.approver()) {
            return Err(
                ApprovalStoreError::AlreadyDecided {
                    approver: crate::text::string_from_literal(decision.approver()),
                    id: id.duplicate(),
                },
            );
        }
        if self.requests[k].required_approvers.len() > 0 && !crate::text::contains_str(
            &self.requests[k].required_approvers,
            decision.approver(),
        ) {
            return Err(ApprovalStoreError::Unauthorised(crate::text::string_from_literal(decision.approver())));
        }
        let ghost before = self@;
        let rec = ApprovalRecord {
            approver: crate::text::string_from_literal(decision.approver()),
            decision: decision.duplicate(),
            recorded_at: now_millis(),
        };
        let mut req = self.requests.remove(k);
        let ghost old_req = req@;
        req.decisions.push(rec);
        let approved = req.threshold_met();
        match &decision {
            ApprovalDecision::Rejected { reason, .. } => {
                req.status = ApprovalStatus::Rejected { reason: reason.clone() };
            },
            ApprovalDecision::Redirected { target_stage, .. } => {
                req.status = ApprovalStatus::Redirected { target_stage: target_stage.clone() };
            },
            ApprovalDecision::Approved { .. } => {
                if approved {
                    req.status = ApprovalStatus::Approved;
                }
            },
        }
        assert(req@ == after_decision(old_req, decision, rec));
        let out = req.duplicate();
        self.requests.insert(k, req);
        assert(self@ =~= before.update(k as int, after_decision(before[k as int], decision, rec)));
        assert(records(rec, decision));
        assert(first_with_id(before, id.0@, k as int) && refusal(before[k as int], decision) is None);
        let r: Result<ApprovalRequest, ApprovalStoreError> = Ok(out);
        assert(records(rec, decision) && self@ == before.update(
            k as int,
            after_decision(before[k as int], decision, rec),
        ) && (r matches Ok(q) && q@ == after_decision(before[k as int], decision, rec)));
        r
    }
}

/// A request stays closed: once it is not pending, every decision is
/// refused as closed.
pub proof fn law_closed_requests_refuse(r: RequestView, d: ApprovalDecision)
    requires
        !(r.status is Pending),
    ensures
        refusal(r, d) == Some(Refusal::Closed),
{
}

/// Each approver decides at most once: after a decision is recorded, any
/// further decision by the same approver is refused.
pub proof fn law_one_decision_per_approver(
    r: RequestView,
    d: ApprovalDecision,
    rec: ApprovalRecord,
    d2: ApprovalDecision,
)
    requires
        refusal(r, d) is None,
        records(rec, d),
        approver_of(d2) == approver_of(d),
    ensures
        refusal(after_decision(r, d, rec), d2) is Some,
{
    let n = after_decision(r, d, rec);
    assert(n.decisions[r.decisions.len() as int].approver@ == approver_of(d2));
}

/// A rejection or a redirect closes a pending request at once.
pub proof fn law_reject_or_redirect_closes(r: RequestView, d: ApprovalDecision, rec: ApprovalRecord)
    requires
        refusal(r, d) is None,
        !(d is Approved),
    ensures
        !(after_decision(r, d, rec).status is Pending),
{
}

/// An approval approves the request exactly when the approvals, this one
/// included, reach the required count.
pub proof fn law_threshold(r: RequestView, d: ApprovalDecision, rec: ApprovalRecord)
    requires
        refusal(r, d) is None,
        d is Approved,
        records(rec, d),
    ensures
        after_decision(r, d, rec).status is Approved <==> count_approvals(r.decisions) + 1
            >= r.required_count,
        !(after_decision(r, d, rec).status is Approved) ==> after_decision(r, d, rec).status is Pending,
{
    assert(r.decisions.push(rec).drop_last() == r.decisions);
}

} // verus!

verus! {

/// No two pending requests of `rs` belong to the same task.
pub open spec fn one_pending_per_task(rs: Seq<RequestView>) -> bool {
    forall|i: int, j: int|
        0 <= i < rs.len() && 0 <= j < rs.len() && #[trigger] rs[i].status is Pending
            && #[trigger] rs[j].status is Pending && rs[i].task_id@ == rs[j].task_id@ ==> i == j
}

/// Creating a request keeps at most one pending request per task.
pub proof fn law_create_keeps_one_pending_per_task(rs: Seq<RequestView>, q: RequestView)
    requires
        one_pending_per_task(rs),
        !has_pending_for(rs, q.task_id@),
    ensures
        one_pending_per_task(rs.push(q)),
{
    let n = rs.push(q);
    assert forall|i: int, j: int|
        0 <= i < n.len() && 0 <= j < n.len() && #[trigger] n[i].status is Pending
            && #[trigger] n[j].status is Pending && n[i].task_id@ == n[j].task_id@ implies i == j by {
        if i < rs.len() && j == rs.len() {
            assert(rs[i].task_id@ == q.task_id@ && rs[i].status is Pending);
        } else if j < rs.len() && i == rs.len() {
            assert(rs[j].task_id@ == q.task_id@ && rs[j].status is Pending);
        } else if i < rs.len() && j < rs.len() {
            assert(rs[i] == n[i] && rs[j] == n[j]);
        }
    }
}

/// Recording a decision keeps at most one pending request per task.
pub proof fn law_decision_keeps_one_pending_per_task(
    rs: Seq<RequestView>,
    k: int,
    d: ApprovalDecision,
    rec: ApprovalRecord,
)
    requires
        one_pending_per_task(rs),
        0 <= k < rs.len(),
        refusal(rs[k], d) is None,
    ensures
        one_pending_per_task(rs.update(k, after_decision(rs[k], d, rec))),
{
    let n = rs.update(k, after_decision(rs[k], d, rec));
    assert forall|i: int, j: int|
        0 <= i < n.len() && 0 <= j < n.len() && #[trigger] n[i].status is Pending
            && #[trigger] n[j].status is Pending && n[i].task_id@ == n[j].task_id@ implies i == j by {
        assert(rs[i].status is Pending && rs[j].status is Pending);
        assert(rs[i].task_id@ == n[i].task_id@ && rs[j].task_id@ == n[j].task_id@);
    }
}

/// The `HumanDecision` event of a request's latest decision.
pub open spec fn decision_event_of(rec: ApprovalRecord) -> DomainEvent {
    DomainEvent::HumanDecision {
        decided_by: rec.approver,
        decision: match rec.decision {
            ApprovalDecision::Approved { .. } => HumanDecisionKind::Approved,
            ApprovalDecision::Rejected { reason, .. } => HumanDecisionKind::Rejected { reason },
            ApprovalDecision::Redirected { target_stage, reason, .. } => HumanDecisionKind::Redirected {
                to_stage: target_stage,
                reason,
            },
        },
        note: match rec.decision {
            ApprovalDecision::Approved { comment, .. } => comment,
            ApprovalDecision::Rejected { reason, .. } => Some(reason),
            ApprovalDecision::Redirected { reason, .. } => Some(reason),
        },
    }
}

/// Event to forward for a request: none while pending, else the decision
/// event of its latest decision.
pub open spec fn forwarded_event(q: RequestView) -> Option<DomainEvent> {
    if q.status is Pending || q.decisions.len() == 0 {
        None
    } else {
        Some(decision_event_of(q.decisions.last()))
    }
}

/// Errors of the approval service.
#[derive(Debug, Clone, PartialEq, Eq)]
pub enum ApprovalServiceError {
    /// The store refused the operation.
    Store(ApprovalStoreError),
    /// No pending approval request exists for the task.
    NoPendingRequest(String),
    /// The request is pending but its threshold has not been met.
    ThresholdNotMet(ApprovalId),
}

/// Coordinates the approval lifecycle: opens requests, records decisions
/// and yields the `HumanDecision` event to forward to the task's actor once
/// a request is resolved.
pub struct ApprovalService {
    store: MemoryApprovalStore,
}

impl View for ApprovalService {
    type V = Seq<RequestView>;

    closed spec fn view(&self) -> Seq<RequestView> {
        self.store@
    }
}

/// Deadline `secs` seconds after `created_at` (milliseconds), saturating at
/// the largest instant.
pub open spec fn deadline_after(created_at: i64, secs: u64) -> i64 {
    if created_at + 1000 * secs > i64::MAX {
        i64::MAX
    } else {
        (created_at + 1000 * secs) as i64
    }
}

impl ApprovalService {
    /// A service over the given store.
    pub fn new(store: MemoryApprovalStore) -> (s: Self)
        ensures
            s@ == store@,
    {
        ApprovalService { store }
    }

    /// The underlying store.
    pub fn store(&self) -> (s: &MemoryApprovalStore)
        ensures
            s@ == self@,
    {
        &self.store
    }

    /// Open an approval request for a task that entered `AwaitingApproval`.
    /// The threshold is `required_count`, at least 1; `timeout_seconds`
    /// sets the deadline relative to now. Refused when the task already has
    /// a pending request.
    pub fn open_request(
        &mut self,
        task_id: String,
        session_id: String,
        stage: String,
        required_count: usize,
        required_approvers: Vec<String>,
        timeout_seconds: Option<u64>,
    ) -> (r: Result<ApprovalRequest, ApprovalServiceError>)
        requires
            timeout_seconds is Some ==> timeout_seconds->0 <= 9_223_372_036_854_775u64,
        ensures
            has_pending_for(old(self)@, task_id@) ==> (r matches Err(
                ApprovalServiceError::Store(ApprovalStoreError::AlreadyExists(t)),
            ) && t@ == task_id@ && final(self)@ == old(self)@),
            !has_pending_for(old(self)@, task_id@) ==> (r matches Ok(q) && final(self)@
                == old(self)@.push(q@) && q.task_id == task_id && q.session_id == session_id
                && q.stage == stage && q.required_count == if required_count >= 1 {
                required_count
            } else {
                1
            } && q.required_approvers@ == required_approvers@ && q.decisions@.len() == 0
                && q.status == ApprovalStatus::Pending && q.timeout_at == match timeout_seconds {
                Some(secs) => Some(deadline_after(q.created_at, secs)),
                None => None,
            }),
    {
        let now = now_millis();
        let timeout_at = match timeout_seconds {
            Some(secs) => {
                let delta: i64 = (secs as i64) * 1000;
                if now > i64::MAX - delta {
                    Some(i64::MAX)
                } else {
                    Some(now + delta)
                }
            },
            None => None,
        };
        let request = ApprovalRequest {
            id: ApprovalId::new(),
            task_id,
            session_id,
            stage,
            required_count: if required_count >= 1 {
                required_count
            } else {
                1
            },
            required_approvers,
            created_at: now,
            timeout_at,
            decisions: Vec::new(),
            status: ApprovalStatus::Pending,
        };
        let copy = request.duplicate();
        match self.store.create(request) {
            Ok(()) => Ok(copy),
            Err(e) => Err(ApprovalServiceError::Store(e)),
        }
    }

    /// Record a human decision on the task's pending request. Returns the
    /// updated request and, when the request is now resolved (approved,
    /// rejected or redirected), the `HumanDecision` event to forward to the
    /// task's actor.
    pub fn record_decision(&mut self, task_id: &str, decision: ApprovalDecision) -> (r: Result<
        (ApprovalRequest, Option<DomainEvent>),
        ApprovalServiceError,
    >)
        ensures
            !has_pending_for(old(self)@, task_id@) ==> (r matches Err(
                ApprovalServiceError::NoPendingRequest(t),
            ) && t@ == task_id@ && final(self)@ == old(self)@),
            r is Ok ==> exists|k: int, kk: int, rec: ApprovalRecord|
                first_pending_for(old(self)@, task_id@, k) && first_with_id(
                    old(self)@,
                    old(self)@[k].id.0@,
                    kk,
                ) && refusal(old(self)@[kk], decision) is None && records(rec, decision)
                    && final(self)@ == old(self)@.update(
                    kk,
                    after_decision(old(self)@[kk], decision, rec),
                ) && (r matches Ok((q, ev)) && q@ == after_decision(
                    old(self)@[kk],
                    decision,
                    rec,
                ) && ev == forwarded_event(q@)),
            (r matches Err(ApprovalServiceError::Store(_))) ==> final(self)@ == old(self)@,
            forall|k: int|
                first_pending_for(old(self)@, task_id@, k) && first_with_id(
                    old(self)@,
                    old(self)@[k].id.0@,
                    k,
                ) && refusal(old(self)@[k], decision) is None ==> r is Ok,
    {
        let pending = match self.store.get_for_task(task_id) {
            Some(q) => q,
            None => {
                return Err(ApprovalServiceError::NoPendingRequest(crate::text::string_from_literal(task_id)));
            },
        };
        let ghost old_store = self@;
        let ghost kp = choose|k: int| first_pending_for(old_store, task_id@, k) && pending@ == old_store[k];
        proof {
            assert forall|k: int| first_pending_for(old_store, task_id@, k) implies k == kp by {
                if k < kp {
                    assert(!(old_store[k].task_id@ == task_id@ && old_store[k].status is Pending));
                } else if k > kp {
                    assert(!(old_store[kp].task_id@ == task_id@ && old_store[kp].status is Pending));
                }
            }
        }
        match self.store.record_decision(&pending.id, decision) {
            Ok(updated) => {
                let ghost kk = choose|k: int|
                    first_with_id(old_store, pending.id.0@, k) && refusal(old_store[k], decision) is None;
                let ghost rec = choose|rec: ApprovalRecord|
                    records(rec, decision) && self@ == old_store.update(
                        kk,
                        after_decision(old_store[kk], decision, rec),
                    ) && updated@ == after_decision(old_store[kk], decision, rec);
                assert(old_store[kp].id.0@ == pending.id.0@);
                let ev = if updated.status.is_pending() || updated.decisions.len() == 0 {
                    None
                } else {
                    let last = &updated.decisions[updated.decisions.len() - 1];
                    Some(
                        DomainEvent::HumanDecision {
                            decided_by: last.approver.clone(),
                            decision: last.decision.to_domain_kind(),
                            note: last.decision.note(),
                        },
                    )
                };
                let r: Result<(ApprovalRequest, Option<DomainEvent>), ApprovalServiceError> = Ok(
                    (updated, ev),
                );
                assert(first_pending_for(old_store, task_id@, kp) && first_with_id(
                    old_store,
                    old_store[kp].id.0@,
                    kk,
                ) && refusal(old_store[kk], decision) is None && records(rec, decision)
                    && self@ == old_store.update(kk, after_decision(old_store[kk], decision, rec))
                    && (r matches Ok((q, ev)) && q@ == after_decision(old_store[kk], decision, rec)
                    && ev == forwarded_event(q@)));
                r
            },
            Err(e) => Err(ApprovalServiceError::Store(e)),
        }
    }
}

} // verus!
