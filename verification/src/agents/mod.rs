//! Agent bookkeeping: buffered output, worktree records and the decisions
//! behind the agent endpoints.

pub mod output_buffer;
pub mod worktree_registry;
pub mod requests;
