//! Verified core of the Molt Hub server: attention routing, approvals,
//! credential bookkeeping, hook policies, event projections and
//! integration helpers.

pub mod actor_events;
pub mod approvals;
pub mod audit;
pub mod boards;
pub mod agents;
pub mod attention;
pub mod concurrent_map;
pub mod credentials;
pub mod domain;
pub mod event_queries;
pub mod hooks;
pub mod ids;
pub mod integrations;
pub mod pipeline;
pub mod projection;
pub mod task_list;
pub mod task_requests;
pub mod text;
