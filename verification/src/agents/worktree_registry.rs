//! Which repository each agent's git worktree belongs to, so the worktree
//! can be removed when the agent ends.

use vstd::prelude::*;

use dashmap::DashMap;

verus! {

/// The concurrent map from agent id (a ULID value) to repository root.
pub type RepoMap = DashMap<u128, String>;

/// Entries of a repository map: agent id to repository root text.
pub uninterp spec fn repo_entries(m: RepoMap) -> Map<u128, Seq<char>>;

/// An empty map (`DashMap::new`).
#[verifier::external_body]
fn repos_new() -> (r: RepoMap)
    ensures
        repo_entries(r) =~= Map::empty(),
{
    DashMap::new()
}

/// Record the root of an agent (`DashMap::insert`).
#[verifier::external_body]
fn repos_insert(m: &mut RepoMap, agent: u128, root: String)
    ensures
        repo_entries(*final(m)) == repo_entries(*old(m)).insert(agent, root@),
{
    m.insert(agent, root);
}

/// Remove and return the root of an agent (`DashMap::remove`).
#[verifier::external_body]
fn repos_remove(m: &mut RepoMap, agent: u128) -> (r: Option<String>)
    ensures
        repo_entries(*final(m)) == repo_entries(*old(m)).remove(agent),
        r is Some <==> repo_entries(*old(m)).dom().contains(agent),
        r matches Some(p) ==> p@ == repo_entries(*old(m))[agent],
{
    m.remove(&agent).map(|(_, p)| p)
}

/// Repository root of each agent that works in a git worktree.
pub struct WorktreeRegistry {
    agent_repo: RepoMap,
}

impl View for WorktreeRegistry {
    type V = Map<u128, Seq<char>>;

    closed spec fn view(&self) -> Map<u128, Seq<char>> {
        repo_entries(self.agent_repo)
    }
}

impl WorktreeRegistry {
    /// An empty registry.
    pub fn new() -> (r: Self)
        ensures
            r@ =~= Map::empty(),
    {
        WorktreeRegistry { agent_repo: repos_new() }
    }

    /// Record that `agent_id` works in a worktree of `repo_root`.
    pub fn record(&mut self, agent_id: u128, repo_root: String)
        ensures
            final(self)@ == old(self)@.insert(agent_id, repo_root@),
    {
        repos_insert(&mut self.agent_repo, agent_id, repo_root);
    }

    /// Forget the worktree record of `agent_id`, returning its root.
    pub fn take_repo_for_agent(&mut self, agent_id: u128) -> (r: Option<String>)
        ensures
            final(self)@ == old(self)@.remove(agent_id),
            r is Some <==> old(self)@.dom().contains(agent_id),
            r matches Some(p) ==> p@ == old(self)@[agent_id],
    {
        repos_remove(&mut self.agent_repo, agent_id)
    }
}

/// A recorded worktree is handed back once: taking it returns the recorded
/// root, and a second take finds nothing.
pub proof fn law_record_then_take_once(m: Map<u128, Seq<char>>, agent: u128, root: Seq<char>)
    ensures
        m.insert(agent, root).dom().contains(agent),
        m.insert(agent, root)[agent] == root,
        !m.insert(agent, root).remove(agent).dom().contains(agent),
{
}

} // verus!
