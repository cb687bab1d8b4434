//! Interrupt classification: routing agent-raised attention signals to the
//! tier that should handle them.
//!
//! Events are classified into four levels (P0 most urgent) and routed to
//! three tiers: the decision queue (P0, P1), the notification digest (P2)
//! and the passive dashboard (P3).

pub mod classifier;
pub mod priority;
pub mod router;
pub mod summary;
