//! Notification routing: classifies events and stores them by attention tier.

use vstd::prelude::*;

use crate::attention::classifier::{level_of, InterruptClassifier};
use crate::attention::priority::{attention_tier, tier_of, AttentionCategory, InterruptLevel};
use crate::domain::{DomainEvent, HumanDecisionKind, Priority, TaskOutcome};
use crate::ids::{fresh_ulid, now_millis};
use crate::agents::requests::{debug_str, str_debug};
use crate::text::{concat2, concat3, push_str, string_from_literal};

verus! {

/// A classified notification derived from a domain event. `id` is a ULID
/// value; `created_at` is in milliseconds since the Unix epoch.
#[derive(Debug, Clone, PartialEq, Eq)]
pub struct Notification {
    pub id: u128,
    pub interrupt_level: InterruptLevel,
    pub attention_category: AttentionCategory,
    pub summary: String,
    pub created_at: i64,
    pub acknowledged: bool,
}

impl Notification {
    /// A new unacknowledged notification, in the tier of its level.
    pub fn new(interrupt_level: InterruptLevel, summary: String) -> (n: Self)
        ensures
            n.interrupt_level == interrupt_level,
            n.attention_category == tier_of(interrupt_level),
            n.summary == summary,
            !n.acknowledged,
    {
        Notification {
            id: fresh_ulid(),
            interrupt_level,
            attention_category: attention_tier(interrupt_level),
            summary,
            created_at: now_millis(),
            acknowledged: false,
        }
    }

    /// A copy of the notification.
    pub fn duplicate(&self) -> (r: Self)
        ensures
            r == *self,
    {
        Notification {
            id: self.id,
            interrupt_level: self.interrupt_level,
            attention_category: self.attention_category,
            summary: self.summary.clone(),
            created_at: self.created_at,
            acknowledged: self.acknowledged,
        }
    }
}

/// The notifications of `ns` in tier `c`, in order.
pub open spec fn in_tier(ns: Seq<Notification>, c: AttentionCategory) -> Seq<Notification> {
    ns.filter(|n: Notification| n.attention_category == c)
}

/// Unacknowledged P0 and P1 notifications.
pub open spec fn is_pending(n: Notification) -> bool {
    !n.acknowledged && (n.interrupt_level == InterruptLevel::P0 || n.interrupt_level
        == InterruptLevel::P1)
}

/// Number of notifications of `ns` at level `l`.
pub open spec fn count_level(ns: Seq<Notification>, l: InterruptLevel) -> nat
    decreases ns.len(),
{
    if ns.len() == 0 {
        0
    } else {
        count_level(ns.drop_last(), l) + if ns.last().interrupt_level == l {
            1nat
        } else {
            0nat
        }
    }
}

/// In-memory notification store.
pub struct InMemoryNotificationStore {
    notifications: Vec<Notification>,
}

impl View for InMemoryNotificationStore {
    type V = Seq<Notification>;

    closed spec fn view(&self) -> Seq<Notification> {
        self.notifications@
    }
}

proof fn lemma_filter_step(s: Seq<Notification>, p: spec_fn(Notification) -> bool, i: int)
    requires
        0 <= i < s.len(),
    ensures
        s.take(i + 1).filter(p) == if p(s[i]) {
            s.take(i).filter(p).push(s[i])
        } else {
            s.take(i).filter(p)
        },
{
    reveal_with_fuel(Seq::filter, 1);
    assert(s.take(i + 1).drop_last() =~= s.take(i));
}

impl InMemoryNotificationStore {
    /// An empty store.
    pub fn new() -> (s: Self)
        ensures
            s@ == Seq::<Notification>::empty(),
    {
        InMemoryNotificationStore { notifications: Vec::new() }
    }

    /// Store a new notification.
    pub fn push(&mut self, notification: Notification)
        ensures
            final(self)@ == old(self)@.push(notification),
    {
        self.notifications.push(notification);
    }

    fn select(&self, by_tier: Option<AttentionCategory>) -> (r: Vec<Notification>)
        ensures
            r@ == match by_tier {
                Some(c) => in_tier(self@, c),
                None => self@.filter(|n: Notification| is_pending(n)),
            },
    {
        let ghost p = match by_tier {
            Some(c) => |n: Notification| n.attention_category == c,
            None => |n: Notification| is_pending(n),
        };
        let mut r: Vec<Notification> = Vec::new();
        let mut i: usize = 0;
        while i < self.notifications.len()
            invariant
                i <= self.notifications.len(),
                p == match by_tier {
                    Some(c) => |n: Notification| n.attention_category == c,
                    None => |n: Notification| is_pending(n),
                },
                r@ == self@.take(i as int).filter(p),
            decreases self.notifications.len() - i,
        {
            proof {
                lemma_filter_step(self@, p, i as int);
            }
            let n = &self.notifications[i];
            let keep = match by_tier {
                Some(c) => n.attention_category == c,
                None => !n.acknowledged && (n.interrupt_level == InterruptLevel::P0
                    || n.interrupt_level == InterruptLevel::P1),
            };
            if keep {
                r.push(n.duplicate());
            }
            i = i + 1;
        }
        assert(self@.take(self.notifications.len() as int) =~= self@);
        r
    }

    /// The notifications in an attention tier, in arrival order.
    pub fn list_by_tier(&self, category: AttentionCategory) -> (r: Vec<Notification>)
        ensures
            r@ == in_tier(self@, category),
    {
        self.select(Some(category))
    }

    /// Unacknowledged P0 and P1 notifications, in arrival order.
    pub fn list_pending(&self) -> (r: Vec<Notification>)
        ensures
            r@ == self@.filter(|n: Notification| is_pending(n)),
    {
        self.select(None)
    }

    /// Mark the first notification with id `id` as acknowledged; `true` if
    /// one was found.
    pub fn mark_acknowledged(&mut self, id: u128) -> (found: bool)
        ensures
            found == exists|i: int| 0 <= i < old(self)@.len() && #[trigger] old(self)@[i].id == id,
            !found ==> final(self)@ == old(self)@,
            found ==> exists|k: int|
                0 <= k < old(self)@.len() && old(self)@[k].id == id && (forall|j: int|
                    0 <= j < k ==> #[trigger] old(self)@[j].id != id) && final(self)@ == old(
                    self,
                )@.update(k, Notification { acknowledged: true, ..old(self)@[k] }),
    {
        let mut k: usize = 0;
        while k < self.notifications.len()
            invariant
                k <= self.notifications.len(),
                self@ == old(self)@,
                forall|j: int| 0 <= j < k ==> #[trigger] self@[j].id != id,
            decreases self.notifications.len() - k,
        {
            if self.notifications[k].id == id {
                let mut n = self.notifications.remove(k);
                n.acknowledged = true;
                self.notifications.insert(k, n);
                assert(self@ =~= old(self)@.update(
                    k as int,
                    Notification { acknowledged: true, ..old(self)@[k as int] },
                ));
                return true;
            }
            k = k + 1;
        }
        false
    }

    /// Number of notifications at a level.
    pub fn count_by_level(&self, level: InterruptLevel) -> (n: usize)
        ensures
            n == count_level(self@, level),
    {
        let mut n: usize = 0;
        let mut i: usize = 0;
        while i < self.notifications.len()
            invariant
                i <= self.notifications.len(),
                n == count_level(self@.take(i as int), level),
                n <= i,
            decreases self.notifications.len() - i,
        {
            assert(self@.take(i + 1).drop_last() =~= self@.take(i as int));
            if self.notifications[i].interrupt_level == level {
                n = n + 1;
            }
            i = i + 1;
        }
        assert(self@.take(self.notifications.len() as int) =~= self@);
        n
    }
}

/// Debug text of a priority (`"P0"` .. `"P3"`).
pub open spec fn priority_debug(p: Priority) -> Seq<char> {
    match p {
        Priority::P0 => "P0"@,
        Priority::P1 => "P1"@,
        Priority::P2 => "P2"@,
        Priority::P3 => "P3"@,
    }
}

/// `{:?}` rendering of a task outcome, as its derived `Debug` writes it:
/// the variant name, then its fields in braces.
pub open spec fn outcome_debug(o: TaskOutcome) -> Seq<char> {
    match o {
        TaskOutcome::Success => "Success"@,
        TaskOutcome::Rejected { reason } => "Rejected { reason: "@ + str_debug(reason@) + " }"@,
        TaskOutcome::Abandoned { reason } => "Abandoned { reason: "@ + str_debug(reason@) + " }"@,
    }
}

/// `{:?}` rendering of a decision kind, as its derived `Debug` writes it.
pub open spec fn decision_debug(d: HumanDecisionKind) -> Seq<char> {
    match d {
        HumanDecisionKind::Approved => "Approved"@,
        HumanDecisionKind::Rejected { reason } => "Rejected { reason: "@ + str_debug(reason@) + " }"@,
        HumanDecisionKind::Redirected { to_stage, reason } => "Redirected { to_stage: "@ + str_debug(
            to_stage@,
        ) + ", reason: "@ + str_debug(reason@) + " }"@,
    }
}

/// The `{:?}` text of a task outcome (see [`outcome_debug`]).
pub fn debug_outcome(o: &TaskOutcome) -> (s: String)
    ensures
        s@ == outcome_debug(*o),
{
    match o {
        TaskOutcome::Success => string_from_literal("Success"),
        TaskOutcome::Rejected { reason } => {
            let r = debug_str(reason.as_str());
            concat3("Rejected { reason: ", r.as_str(), " }")
        },
        TaskOutcome::Abandoned { reason } => {
            let r = debug_str(reason.as_str());
            concat3("Abandoned { reason: ", r.as_str(), " }")
        },
    }
}

/// The `{:?}` text of a decision kind (see [`decision_debug`]).
pub fn debug_decision(d: &HumanDecisionKind) -> (s: String)
    ensures
        s@ == decision_debug(*d),
{
    match d {
        HumanDecisionKind::Approved => string_from_literal("Approved"),
        HumanDecisionKind::Rejected { reason } => {
            let r = debug_str(reason.as_str());
            concat3("Rejected { reason: ", r.as_str(), " }")
        },
        HumanDecisionKind::Redirected { to_stage, reason } => {
            let t = debug_str(to_stage.as_str());
            let r = debug_str(reason.as_str());
            let mut s = concat3("Redirected { to_stage: ", t.as_str(), ", reason: ");
            push_str(&mut s, r.as_str());
            push_str(&mut s, " }");
            s
        },
    }
}

/// Short human-readable summary of an event.
pub open spec fn summary_text(e: DomainEvent) -> Seq<char> {
    match e {
        DomainEvent::TaskCreated { title, .. } => "Task created: "@ + title@,
        DomainEvent::TaskStageChanged { from_stage, to_stage, .. } => "Task moved from '"@
            + from_stage@ + "' to '"@ + to_stage@ + "'"@,
        DomainEvent::TaskPriorityChanged { from, to } => "Priority changed from "@ + priority_debug(
            from,
        ) + " to "@ + priority_debug(to),
        DomainEvent::TaskBlocked { reason } => "Task blocked: "@ + reason@,
        DomainEvent::TaskUnblocked { resolution } => match resolution {
            Some(r) => "Task unblocked: "@ + r@,
            None => "Task unblocked"@,
        },
        DomainEvent::TaskCompleted { outcome } => "Task completed: "@ + outcome_debug(outcome),
        DomainEvent::AgentAssigned { agent_name, .. } => "Agent assigned: "@ + agent_name@,
        DomainEvent::AgentOutput { .. } => "Agent output received"@,
        DomainEvent::AgentCompleted { summary, .. } => match summary {
            Some(s) => "Agent completed: "@ + s@,
            None => "Agent completed"@,
        },
        DomainEvent::HumanDecision { decided_by, decision, .. } => "Decision by "@ + decided_by@
            + ": "@ + decision_debug(decision),
        DomainEvent::TaskImported { external_id, .. } => "Task imported: "@ + external_id@,
        DomainEvent::IntegrationConfigured => "Integration configured"@,
    }
}

fn priority_debug_string(p: Priority) -> (s: String)
    ensures
        s@ == priority_debug(p),
{
    match p {
        Priority::P0 => string_from_literal("P0"),
        Priority::P1 => string_from_literal("P1"),
        Priority::P2 => string_from_literal("P2"),
        Priority::P3 => string_from_literal("P3"),
    }
}

/// Short human-readable summary of an event (see [`summary_text`]).
pub fn event_summary(e: &DomainEvent) -> (s: String)
    ensures
        s@ == summary_text(*e),
{
    match e {
        DomainEvent::TaskCreated { title, .. } => concat2("Task created: ", title.as_str()),
        DomainEvent::TaskStageChanged { from_stage, to_stage, .. } => {
            let mut s = concat3("Task moved from '", from_stage.as_str(), "' to '");
            push_str(&mut s, to_stage.as_str());
            push_str(&mut s, "'");
            s
        },
        DomainEvent::TaskPriorityChanged { from, to } => {
            let f = priority_debug_string(*from);
            let t = priority_debug_string(*to);
            let mut s = concat3("Priority changed from ", f.as_str(), " to ");
            push_str(&mut s, t.as_str());
            s
        },
        DomainEvent::TaskBlocked { reason } => concat2("Task blocked: ", reason.as_str()),
        DomainEvent::TaskUnblocked { resolution } => match resolution {
            Some(r) => concat2("Task unblocked: ", r.as_str()),
            None => string_from_literal("Task unblocked"),
        },
        DomainEvent::TaskCompleted { outcome } => {
            let o = debug_outcome(outcome);
            concat2("Task completed: ", o.as_str())
        },
        DomainEvent::AgentAssigned { agent_name, .. } => concat2("Agent assigned: ", agent_name.as_str()),
        DomainEvent::AgentOutput { .. } => string_from_literal("Agent output received"),
        DomainEvent::AgentCompleted { summary, .. } => match summary {
            Some(s) => concat2("Agent completed: ", s.as_str()),
            None => string_from_literal("Agent completed"),
        },
        DomainEvent::HumanDecision { decided_by, decision, .. } => {
            let d = debug_decision(decision);
            let mut s = concat3("Decision by ", decided_by.as_str(), ": ");
            push_str(&mut s, d.as_str());
            s
        },
        DomainEvent::TaskImported { external_id, .. } => concat2("Task imported: ", external_id.as_str()),
        DomainEvent::IntegrationConfigured => string_from_literal("Integration configured"),
    }
}

/// Routes classified domain events to the notification store.
pub struct NotificationRouter {
    classifier: InterruptClassifier,
    store: InMemoryNotificationStore,
}

impl View for NotificationRouter {
    type V = Seq<Notification>;

    closed spec fn view(&self) -> Seq<Notification> {
        self.store@
    }
}

impl NotificationRouter {
    /// A router over an empty in-memory store.
    pub fn new() -> (r: Self)
        ensures
            r@ == Seq::<Notification>::empty(),
    {
        NotificationRouter { classifier: InterruptClassifier::new(), store: InMemoryNotificationStore::new() }
    }

    /// A router over the given store.
    pub fn with_store(store: InMemoryNotificationStore) -> (r: Self)
        ensures
            r@ == store@,
    {
        NotificationRouter { classifier: InterruptClassifier::new(), store }
    }

    /// Classify an event, store the resulting notification and return it.
    pub fn route(&mut self, event: &DomainEvent) -> (n: Notification)
        ensures
            n.interrupt_level == level_of(*event),
            n.attention_category == tier_of(level_of(*event)),
            n.summary@ == summary_text(*event),
            !n.acknowledged,
            final(self)@ == old(self)@.push(n),
    {
        let level = self.classifier.classify(event);
        let summary = event_summary(event);
        let notification = Notification::new(level, summary);
        self.store.push(notification.duplicate());
        notification
    }

    /// The underlying store.
    pub fn store(&self) -> (s: &InMemoryNotificationStore)
        ensures
            s@ == self@,
    {
        &self.store
    }
}

} // verus!
