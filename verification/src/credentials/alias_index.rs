//! Index of `(scope, alias)` pairs for backends that cannot enumerate their
//! entries (such as the OS keychain).

use vstd::prelude::*;

use dashmap::DashMap;

use crate::credentials::scope::{scope_text, CredentialScope};
use crate::text::{
    contains_str, distinct_texts, has_text, sort_strings, str_eq, string_from_literal,
    strictly_ascending,
};

verus! {

/// The concurrent map from scope text to the aliases recorded in it.
pub type AliasMap = DashMap<String, Vec<String>>;

/// Entries of an alias map: scope text to its recorded aliases.
pub uninterp spec fn alias_entries(m: AliasMap) -> Map<Seq<char>, Seq<String>>;

/// An empty map (`DashMap::new`).
#[verifier::external_body]
fn aliases_new() -> (r: AliasMap)
    ensures
        alias_entries(r) =~= Map::empty(),
{
    DashMap::new()
}

/// The aliases of a scope, cloned (`DashMap::get`).
#[verifier::external_body]
fn aliases_get(m: &AliasMap, scope: &str) -> (r: Option<Vec<String>>)
    ensures
        r is Some <==> alias_entries(*m).dom().contains(scope@),
        r matches Some(v) ==> v@ == alias_entries(*m)[scope@],
{
    m.get(scope).map(|v| v.value().clone())
}

/// Set the aliases of a scope (`DashMap::insert`).
#[verifier::external_body]
fn aliases_insert(m: &mut AliasMap, scope: String, aliases: Vec<String>)
    ensures
        alias_entries(*final(m)) == alias_entries(*old(m)).insert(scope@, aliases@),
{
    m.insert(scope, aliases);
}

/// The texts of `v`, as a set.
pub open spec fn text_set(v: Seq<String>) -> Set<Seq<char>> {
    Set::new(|t: Seq<char>| has_text(v, t))
}

/// Tracks which credential aliases exist per scope.
pub struct CredentialAliasIndex {
    scopes: AliasMap,
}

impl View for CredentialAliasIndex {
    type V = Map<Seq<char>, Set<Seq<char>>>;

    closed spec fn view(&self) -> Map<Seq<char>, Set<Seq<char>>> {
        alias_entries(self.scopes).map_values(|v: Seq<String>| text_set(v))
    }
}

impl CredentialAliasIndex {
    /// Aliases recorded in a scope (empty if none).
    pub open spec fn aliases_in(m: Map<Seq<char>, Set<Seq<char>>>, scope: CredentialScope) -> Set<
        Seq<char>,
    > {
        if m.dom().contains(scope_text(scope)) {
            m[scope_text(scope)]
        } else {
            Set::empty()
        }
    }

    /// An empty index.
    pub fn new() -> (s: Self)
        ensures
            s@ =~= Map::empty(),
    {
        let s = CredentialAliasIndex { scopes: aliases_new() };
        assert(s@ =~= Map::empty());
        s
    }

    /// Record that `alias` exists in `scope`.
    pub fn register(&mut self, scope: &CredentialScope, alias: &str)
        ensures
            final(self)@ == old(self)@.insert(
                scope_text(*scope),
                Self::aliases_in(old(self)@, *scope).insert(alias@),
            ),
    {
        let sk = scope.to_string();
        let mut v = match aliases_get(&self.scopes, sk.as_str()) {
            Some(v) => v,
            None => Vec::new(),
        };
        let ghost old_set = Self::aliases_in(old(self)@, *scope);
        assert(text_set(v@) == old_set);
        if !contains_str(&v, alias) {
            let ghost before = v@;
            assert(text_set(before) == old_set);
            v.push(string_from_literal(alias));
            assert forall|t: Seq<char>| has_text(v@, t) <==> has_text(before, t) || t == alias@ by {
                if has_text(before, t) {
                    let i = choose|i: int| 0 <= i < before.len() && #[trigger] before[i]@ == t;
                    assert(v@[i]@ == t);
                }
                if t == alias@ {
                    assert(v@[before.len() as int]@ == t);
                }
            }
            assert forall|t: Seq<char>| #[trigger] text_set(v@).contains(t) <==> old_set.insert(alias@).contains(t) by {
                assert(text_set(v@).contains(t) <==> has_text(v@, t));
                assert(text_set(before).contains(t) <==> has_text(before, t));
            }
            assert(text_set(v@) =~= old_set.insert(alias@));
        } else {
            let ghost i = choose|i: int| 0 <= i < v@.len() && #[trigger] v@[i]@ == alias@;
            assert(has_text(v@, alias@));
            assert(text_set(v@) =~= old_set.insert(alias@));
        }
        aliases_insert(&mut self.scopes, sk, v);
        assert(self@ =~= old(self)@.insert(scope_text(*scope), old_set.insert(alias@)));
    }

    /// Forget `alias` in `scope`.
    pub fn unregister(&mut self, scope: &CredentialScope, alias: &str)
        ensures
            old(self)@.dom().contains(scope_text(*scope)) ==> final(self)@ == old(self)@.insert(
                scope_text(*scope),
                old(self)@[scope_text(*scope)].remove(alias@),
            ),
            !old(self)@.dom().contains(scope_text(*scope)) ==> final(self)@ == old(self)@,
    {
        let sk = scope.to_string();
        match aliases_get(&self.scopes, sk.as_str()) {
            Some(v) => {
                let ghost old_set = old(self)@[scope_text(*scope)];
                assert(text_set(v@) == old_set);
                let mut kept: Vec<String> = Vec::new();
                let mut i: usize = 0;
                while i < v.len()
                    invariant
                        i <= v.len(),
                        forall|t: Seq<char>|
                            has_text(kept@, t) <==> (exists|j: int| 0 <= j < i && #[trigger] v@[j]@ == t)
                                && t != alias@,
                    decreases v.len() - i,
                {
                    let ghost before = kept@;
                    if !str_eq(v[i].as_str(), alias) {
                        kept.push(v[i].clone());
                        assert forall|t: Seq<char>|
                            has_text(kept@, t) <==> (exists|j: int|
                                0 <= j < i + 1 && #[trigger] v@[j]@ == t) && t != alias@ by {
                            if has_text(kept@, t) {
                                let x = choose|x: int| 0 <= x < kept@.len() && #[trigger] kept@[x]@ == t;
                                if x < before.len() {
                                    assert(before[x]@ == t);
                                    assert(has_text(before, t));
                                } else {
                                    assert(v@[i as int]@ == t);
                                }
                            }
                            if (exists|j: int| 0 <= j < i + 1 && #[trigger] v@[j]@ == t) && t != alias@ {
                                let j = choose|j: int| 0 <= j < i + 1 && #[trigger] v@[j]@ == t;
                                if j < i {
                                    assert(v@[j]@ == t);
                                    assert(has_text(before, t));
                                    let x = choose|x: int| 0 <= x < before.len() && #[trigger] before[x]@ == t;
                                    assert(kept@[x]@ == t);
                                } else {
                                    assert(kept@[before.len() as int]@ == t);
                                }
                            }
                        }
                    } else {
                        assert forall|t: Seq<char>|
                            has_text(kept@, t) <==> (exists|j: int|
                                0 <= j < i + 1 && #[trigger] v@[j]@ == t) && t != alias@ by {
                            if (exists|j: int| 0 <= j < i + 1 && #[trigger] v@[j]@ == t) && t != alias@ {
                                let j = choose|j: int| 0 <= j < i + 1 && #[trigger] v@[j]@ == t;
                                assert(j != i);
                                assert(v@[j]@ == t);
                            }
                        }
                    }
                    i = i + 1;
                }
                assert(text_set(kept@) =~= old_set.remove(alias@));
                aliases_insert(&mut self.scopes, sk, kept);
                assert(self@ =~= old(self)@.insert(scope_text(*scope), old_set.remove(alias@)));
            },
            None => {},
        }
    }

    /// Aliases recorded in `scope`, sorted ascending (empty if none).
    pub fn list(&self, scope: &CredentialScope) -> (r: Vec<String>)
        ensures
            strictly_ascending(r@),
            forall|a: Seq<char>| has_text(r@, a) <==> Self::aliases_in(self@, *scope).contains(a),
    {
        let sk = scope.to_string();
        let v = match aliases_get(&self.scopes, sk.as_str()) {
            Some(v) => v,
            None => Vec::new(),
        };
        let mut distinct: Vec<String> = Vec::new();
        let mut i: usize = 0;
        while i < v.len()
            invariant
                i <= v.len(),
                distinct_texts(distinct@),
                forall|t: Seq<char>|
                    has_text(distinct@, t) <==> exists|j: int| 0 <= j < i && #[trigger] v@[j]@ == t,
            decreases v.len() - i,
        {
            let ghost before = distinct@;
            if !contains_str(&distinct, v[i].as_str()) {
                distinct.push(v[i].clone());
                assert forall|t: Seq<char>|
                    has_text(distinct@, t) <==> exists|j: int| 0 <= j < i + 1 && #[trigger] v@[j]@ == t by {
                    if has_text(distinct@, t) {
                        let x = choose|x: int| 0 <= x < distinct@.len() && #[trigger] distinct@[x]@ == t;
                        if x < before.len() {
                            assert(before[x]@ == t);
                            assert(has_text(before, t));
                        } else {
                            assert(v@[i as int]@ == t);
                        }
                    }
                    if exists|j: int| 0 <= j < i + 1 && #[trigger] v@[j]@ == t {
                        let j = choose|j: int| 0 <= j < i + 1 && #[trigger] v@[j]@ == t;
                        if j < i {
                            assert(v@[j]@ == t);
                            assert(has_text(before, t));
                            let x = choose|x: int| 0 <= x < before.len() && #[trigger] before[x]@ == t;
                            assert(distinct@[x]@ == t);
                        } else {
                            assert(distinct@[before.len() as int]@ == t);
                        }
                    }
                }
            } else {
                assert forall|t: Seq<char>|
                    has_text(distinct@, t) <==> exists|j: int| 0 <= j < i + 1 && #[trigger] v@[j]@ == t by {
                    if exists|j: int| 0 <= j < i + 1 && #[trigger] v@[j]@ == t {
                        let j = choose|j: int| 0 <= j < i + 1 && #[trigger] v@[j]@ == t;
                        if j == i {
                            let x = choose|x: int| 0 <= x < distinct@.len() && #[trigger] distinct@[x]@ == v@[i as int]@;
                            assert(has_text(distinct@, t));
                        } else {
                            assert(v@[j]@ == t);
                        }
                    }
                }
            }
            i = i + 1;
        }
        assert forall|a: Seq<char>| has_text(distinct@, a) <==> text_set(v@).contains(a) by {
            if has_text(v@, a) {
                let j = choose|j: int| 0 <= j < v@.len() && #[trigger] v@[j]@ == a;
                assert(v@[j]@ == a);
            }
        }
        sort_strings(distinct)
    }
}

/// Registering an alias makes it listed in its scope.
pub proof fn law_register_then_listed(m: Map<Seq<char>, Set<Seq<char>>>, scope: CredentialScope, alias: Seq<char>)
    ensures
        CredentialAliasIndex::aliases_in(
            m.insert(scope_text(scope), CredentialAliasIndex::aliases_in(m, scope).insert(alias)),
            scope,
        ).contains(alias),
{
}

/// Unregistering an alias removes it from its scope's listing.
pub proof fn law_unregister_then_unlisted(m: Map<Seq<char>, Set<Seq<char>>>, scope: CredentialScope, alias: Seq<char>)
    requires
        m.dom().contains(scope_text(scope)),
    ensures
        !CredentialAliasIndex::aliases_in(
            m.insert(scope_text(scope), m[scope_text(scope)].remove(alias)),
            scope,
        ).contains(alias),
{
}

} // verus!
