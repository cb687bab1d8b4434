//! Interrupt priority levels and attention tier classification.

use vstd::prelude::*;

use crate::text::string_from_literal;

verus! {

/// Four-level interrupt classification for agent-raised events
/// (P0 is the most urgent).
#[derive(Debug, Clone, Copy, PartialEq, Eq, PartialOrd, Ord, Hash, Structural)]
pub enum InterruptLevel {
    /// Immediate action required.
    P0,
    /// Needs attention soon.
    P1,
    /// Informational.
    P2,
    /// Passive / log-only.
    P3,
}

/// Three-tier attention model mapping interrupt levels to display channels.
#[derive(Debug, Clone, Copy, PartialEq, Eq, Hash, Structural)]
pub enum AttentionCategory {
    /// Decision required from the human (P0 and P1).
    DecisionQueue,
    /// Informational digest (P2).
    NotificationDigest,
    /// Background log (P3).
    PassiveDashboard,
}

/// Urgency rank of a level: 0 for P0 up to 3 for P3.
pub open spec fn level_rank(level: InterruptLevel) -> int {
    match level {
        InterruptLevel::P0 => 0,
        InterruptLevel::P1 => 1,
        InterruptLevel::P2 => 2,
        InterruptLevel::P3 => 3,
    }
}

/// The tier that a level is displayed in.
pub open spec fn tier_of(level: InterruptLevel) -> AttentionCategory {
    match level {
        InterruptLevel::P0 | InterruptLevel::P1 => AttentionCategory::DecisionQueue,
        InterruptLevel::P2 => AttentionCategory::NotificationDigest,
        InterruptLevel::P3 => AttentionCategory::PassiveDashboard,
    }
}

/// Display text of a level.
pub open spec fn level_text(level: InterruptLevel) -> Seq<char> {
    match level {
        InterruptLevel::P0 => "P0"@,
        InterruptLevel::P1 => "P1"@,
        InterruptLevel::P2 => "P2"@,
        InterruptLevel::P3 => "P3"@,
    }
}

/// Display text of a category.
pub open spec fn category_text(category: AttentionCategory) -> Seq<char> {
    match category {
        AttentionCategory::DecisionQueue => "DecisionQueue"@,
        AttentionCategory::NotificationDigest => "NotificationDigest"@,
        AttentionCategory::PassiveDashboard => "PassiveDashboard"@,
    }
}

/// Map an `InterruptLevel` to its `AttentionCategory`:
/// P0, P1 to the decision queue, P2 to the digest, P3 to the passive dashboard.
pub fn attention_tier(level: InterruptLevel) -> (category: AttentionCategory)
    ensures
        category == tier_of(level),
{
    match level {
        InterruptLevel::P0 | InterruptLevel::P1 => AttentionCategory::DecisionQueue,
        InterruptLevel::P2 => AttentionCategory::NotificationDigest,
        InterruptLevel::P3 => AttentionCategory::PassiveDashboard,
    }
}

impl InterruptLevel {
    /// Urgency rank (0 = most urgent), the order the derived `Ord` follows.
    pub fn rank(&self) -> (r: u8)
        ensures
            r as int == level_rank(*self),
    {
        match self {
            InterruptLevel::P0 => 0,
            InterruptLevel::P1 => 1,
            InterruptLevel::P2 => 2,
            InterruptLevel::P3 => 3,
        }
    }

    /// Display text: `"P0"` .. `"P3"`.
    pub fn to_string(&self) -> (s: String)
        ensures
            s@ == level_text(*self),
    {
        match self {
            InterruptLevel::P0 => string_from_literal("P0"),
            InterruptLevel::P1 => string_from_literal("P1"),
            InterruptLevel::P2 => string_from_literal("P2"),
            InterruptLevel::P3 => string_from_literal("P3"),
        }
    }
}

impl AttentionCategory {
    /// Display text: the variant's name.
    pub fn to_string(&self) -> (s: String)
        ensures
            s@ == category_text(*self),
    {
        match self {
            AttentionCategory::DecisionQueue => string_from_literal("DecisionQueue"),
            AttentionCategory::NotificationDigest => string_from_literal("NotificationDigest"),
            AttentionCategory::PassiveDashboard => string_from_literal("PassiveDashboard"),
        }
    }
}

/// The two decision-queue levels are exactly the two most urgent ones.
pub proof fn decision_queue_is_most_urgent(level: InterruptLevel)
    ensures
        (tier_of(level) == AttentionCategory::DecisionQueue) <==> level_rank(level) <= 1,
{
}

} // verus!
