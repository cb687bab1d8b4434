//! Attention summary: aggregated counts behind the sidebar badges.

use vstd::prelude::*;

use crate::attention::priority::{AttentionCategory, InterruptLevel};
use crate::attention::router::{count_level, in_tier, InMemoryNotificationStore, Notification};

verus! {

/// Aggregated notification counts by level, and the number of
/// unacknowledged notifications in the decision queue.
#[derive(Debug, Clone, Copy, PartialEq, Eq, Structural)]
pub struct AttentionSummary {
    pub p0_count: usize,
    pub p1_count: usize,
    pub p2_count: usize,
    pub p3_count: usize,
    pub pending_decisions: usize,
}

impl Default for AttentionSummary {
    fn default() -> (s: Self)
        ensures
            s.p0_count == 0 && s.p1_count == 0 && s.p2_count == 0 && s.p3_count == 0
                && s.pending_decisions == 0,
    {
        AttentionSummary { p0_count: 0, p1_count: 0, p2_count: 0, p3_count: 0, pending_decisions: 0 }
    }
}

/// Number of unacknowledged notifications in `ns`.
pub open spec fn count_unacked(ns: Seq<Notification>) -> nat
    decreases ns.len(),
{
    if ns.len() == 0 {
        0
    } else {
        count_unacked(ns.drop_last()) + if !ns.last().acknowledged {
            1nat
        } else {
            0nat
        }
    }
}

impl AttentionSummary {
    /// Summary of a store: per-level counts, and the unacknowledged
    /// notifications of the decision queue.
    pub fn from_store(store: &InMemoryNotificationStore) -> (s: Self)
        ensures
            s.p0_count == count_level(store@, InterruptLevel::P0),
            s.p1_count == count_level(store@, InterruptLevel::P1),
            s.p2_count == count_level(store@, InterruptLevel::P2),
            s.p3_count == count_level(store@, InterruptLevel::P3),
            s.pending_decisions == count_unacked(in_tier(store@, AttentionCategory::DecisionQueue)),
    {
        let p0_count = store.count_by_level(InterruptLevel::P0);
        let p1_count = store.count_by_level(InterruptLevel::P1);
        let p2_count = store.count_by_level(InterruptLevel::P2);
        let p3_count = store.count_by_level(InterruptLevel::P3);
        let queue = store.list_by_tier(AttentionCategory::DecisionQueue);
        let mut pending: usize = 0;
        let mut i: usize = 0;
        while i < queue.len()
            invariant
                i <= queue.len(),
                pending == count_unacked(queue@.take(i as int)),
                pending <= i,
            decreases queue.len() - i,
        {
            assert(queue@.take(i + 1).drop_last() =~= queue@.take(i as int));
            if !queue[i].acknowledged {
                pending = pending + 1;
            }
            i = i + 1;
        }
        assert(queue@.take(queue.len() as int) =~= queue@);
        AttentionSummary { p0_count, p1_count, p2_count, p3_count, pending_decisions: pending }
    }

    /// Whether any P0 or P1 notification exists.
    pub fn needs_attention(&self) -> (b: bool)
        ensures
            b == (self.p0_count > 0 || self.p1_count > 0),
    {
        self.p0_count > 0 || self.p1_count > 0
    }

    /// Total number of notifications.
    pub fn total(&self) -> (n: usize)
        requires
            self.p0_count + self.p1_count + self.p2_count + self.p3_count <= usize::MAX,
        ensures
            n == self.p0_count + self.p1_count + self.p2_count + self.p3_count,
    {
        self.p0_count + self.p1_count + self.p2_count + self.p3_count
    }
}

/// Counting every level covers every notification: the per-level counts of
/// a store add up to its size.
pub proof fn law_levels_partition(ns: Seq<Notification>)
    ensures
        count_level(ns, InterruptLevel::P0) + count_level(ns, InterruptLevel::P1) + count_level(
            ns,
            InterruptLevel::P2,
        ) + count_level(ns, InterruptLevel::P3) == ns.len(),
    decreases ns.len(),
{
    if ns.len() > 0 {
        law_levels_partition(ns.drop_last());
    }
}

} // verus!
