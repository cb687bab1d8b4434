//! Authorizations in flight: the PKCE verifier and credential scope
//! remembered under each CSRF state token handed out by `/auth`, consumed
//! by the callback that presents the token.

use vstd::prelude::*;

use dashmap::DashMap;

use crate::credentials::scope::CredentialScope;
use crate::text::string_from_literal;

verus! {

/// The concurrent map from state token to `(verifier, scope)`.
pub type PendingMap = DashMap<String, (String, CredentialScope)>;

/// Entries of a pending map, by state token.
pub uninterp spec fn pending_entries(m: PendingMap) -> Map<Seq<char>, (Seq<char>, CredentialScope)>;

/// An empty map (`DashMap::new`).
#[verifier::external_body]
fn pending_new() -> (r: PendingMap)
    ensures
        pending_entries(r) =~= Map::empty(),
{
    DashMap::new()
}

/// Insert or replace an entry (`DashMap::insert`).
#[verifier::external_body]
fn pending_insert(m: &mut PendingMap, state: String, entry: (String, CredentialScope))
    ensures
        pending_entries(*final(m)) == pending_entries(*old(m)).insert(state@, (entry.0@, entry.1)),
{
    m.insert(state, entry);
}

/// Remove the entry under `state` and hand out its value
/// (`DashMap::remove`).
#[verifier::external_body]
fn pending_remove(m: &mut PendingMap, state: &str) -> (r: Option<(String, CredentialScope)>)
    ensures
        pending_entries(*final(m)) == pending_entries(*old(m)).remove(state@),
        r is Some <==> pending_entries(*old(m)).dom().contains(state@),
        r matches Some(e) ==> (e.0@, e.1) == pending_entries(*old(m))[state@],
{
    m.remove(state).map(|(_, v)| v)
}

/// Whether `state` has an entry (`DashMap::contains_key`).
#[verifier::external_body]
fn pending_contains(m: &PendingMap, state: &str) -> (r: bool)
    ensures
        r == pending_entries(*m).dom().contains(state@),
{
    m.contains_key(state)
}

/// Number of entries (`DashMap::len`).
#[verifier::external_body]
fn pending_len(m: &PendingMap) -> (r: usize)
    ensures
        r == pending_entries(*m).dom().len(),
{
    m.len()
}

/// A callback presented a state token that was never handed out, or was
/// already used.
#[derive(Debug, Clone, Copy, PartialEq, Eq)]
pub struct UnknownState;

/// Message answering a callback with an unknown state (with 400).
pub open spec fn unknown_state_text() -> Seq<char> {
    "Unknown or already-used state token. Please restart the OAuth flow."@
}

impl UnknownState {
    /// The error text sent to the client.
    pub fn message(&self) -> (s: String)
        ensures
            s@ == unknown_state_text(),
    {
        string_from_literal("Unknown or already-used state token. Please restart the OAuth flow.")
    }
}

/// The authorizations in flight.
pub struct PendingAuthorizations {
    verifiers: PendingMap,
}

impl View for PendingAuthorizations {
    type V = Map<Seq<char>, (Seq<char>, CredentialScope)>;

    closed spec fn view(&self) -> Map<Seq<char>, (Seq<char>, CredentialScope)> {
        pending_entries(self.verifiers)
    }
}

/// What a callback with `state` gets from the authorizations `m`: the
/// remembered verifier and scope, if the token is pending.
pub open spec fn take_outcome(m: Map<Seq<char>, (Seq<char>, CredentialScope)>, state: Seq<char>) -> Option<
    (Seq<char>, CredentialScope),
> {
    if m.dom().contains(state) {
        Some(m[state])
    } else {
        None
    }
}

impl PendingAuthorizations {
    /// No authorization in flight.
    pub fn new() -> (p: Self)
        ensures
            p@ == Map::<Seq<char>, (Seq<char>, CredentialScope)>::empty(),
    {
        PendingAuthorizations { verifiers: pending_new() }
    }

    /// Remember `verifier` and `scope` under a freshly issued `state`.
    pub fn remember(&mut self, state: String, verifier: String, scope: CredentialScope)
        ensures
            final(self)@ == old(self)@.insert(state@, (verifier@, scope)),
    {
        pending_insert(&mut self.verifiers, state, (verifier, scope));
    }

    /// Consume the authorization of `state`: its verifier and scope, which
    /// are forgotten; `UnknownState` (nothing changes) when the token is not
    /// pending.
    pub fn take(&mut self, state: &str) -> (r: Result<(String, CredentialScope), UnknownState>)
        ensures
            match take_outcome(old(self)@, state@) {
                Some(e) => r matches Ok(v) && (v.0@, v.1) == e && final(self)@ == old(self)@.remove(
                    state@,
                ),
                None => r == Err::<(String, CredentialScope), UnknownState>(UnknownState)
                    && final(self)@ == old(self)@,
            },
    {
        match pending_remove(&mut self.verifiers, state) {
            Some(e) => Ok(e),
            None => {
                assert(old(self)@.remove(state@) =~= old(self)@);
                Err(UnknownState)
            },
        }
    }

    /// Whether `state` is pending.
    pub fn contains(&self, state: &str) -> (r: bool)
        ensures
            r == self@.dom().contains(state@),
    {
        pending_contains(&self.verifiers, state)
    }

    /// Number of authorizations in flight.
    pub fn len(&self) -> (n: usize)
        ensures
            n == self@.dom().len(),
    {
        pending_len(&self.verifiers)
    }
}

/// A state token is good for one callback: right after it is remembered a
/// callback with it gets the remembered verifier and scope, and a second
/// callback with it is refused.
pub proof fn law_state_token_used_once(
    m: Map<Seq<char>, (Seq<char>, CredentialScope)>,
    state: Seq<char>,
    verifier: Seq<char>,
    scope: CredentialScope,
)
    ensures
        take_outcome(m.insert(state, (verifier, scope)), state) == Some((verifier, scope)),
        take_outcome(m.insert(state, (verifier, scope)).remove(state), state) is None,
{
}

/// A callback never disturbs the authorizations of other state tokens.
pub proof fn law_other_states_kept(
    m: Map<Seq<char>, (Seq<char>, CredentialScope)>,
    state: Seq<char>,
    other: Seq<char>,
)
    requires
        other != state,
    ensures
        take_outcome(m.remove(state), other) == take_outcome(m, other),
{
}

} // verus!
