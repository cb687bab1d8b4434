//! In-memory credential store over a concurrent map.

use vstd::prelude::*;

use dashmap::DashMap;

use crate::credentials::scope::{
    key_text, scope_text, storage_key, CredentialError, CredentialScope,
};
use crate::text::{
    chars_of, concat3, has_text, distinct_texts, sort_strings, string_from_literal,
    string_from_slice, strictly_ascending, vec_has_prefix, has_prefix,
};

verus! {

/// The concurrent map holding credentials by storage key.
pub type SecretMap = DashMap<String, String>;

/// Entries of a credential map, by key text.
pub uninterp spec fn secret_entries(m: SecretMap) -> Map<Seq<char>, Seq<char>>;

/// An empty map (`DashMap::new`).
#[verifier::external_body]
fn secrets_new() -> (r: SecretMap)
    ensures
        secret_entries(r) =~= Map::empty(),
{
    DashMap::new()
}

/// Insert or replace an entry (`DashMap::insert`).
#[verifier::external_body]
fn secrets_insert(m: &mut SecretMap, key: String, value: String)
    ensures
        secret_entries(*final(m)) == secret_entries(*old(m)).insert(key@, value@),
{
    m.insert(key, value);
}

/// The value under `key`, cloned (`DashMap::get`).
#[verifier::external_body]
fn secrets_get(m: &SecretMap, key: &str) -> (r: Option<String>)
    ensures
        r is Some <==> secret_entries(*m).dom().contains(key@),
        r matches Some(v) ==> v@ == secret_entries(*m)[key@],
{
    m.get(key).map(|v| v.value().clone())
}

/// Remove the entry under `key` if present (`DashMap::remove`).
#[verifier::external_body]
fn secrets_remove(m: &mut SecretMap, key: &str)
    ensures
        secret_entries(*final(m)) == secret_entries(*old(m)).remove(key@),
{
    m.remove(key);
}

/// All keys, in the map's iteration order (`DashMap::iter`).
#[verifier::external_body]
fn secrets_keys(m: &SecretMap) -> (r: Vec<String>)
    ensures
        distinct_texts(r@),
        forall|k: Seq<char>| has_text(r@, k) <==> secret_entries(*m).dom().contains(k),
{
    m.iter().map(|e| e.key().clone()).collect()
}

/// In-memory credential store: entries keyed by storage key.
pub struct MemoryStore {
    entries: SecretMap,
}

impl View for MemoryStore {
    type V = Map<Seq<char>, Seq<char>>;

    closed spec fn view(&self) -> Map<Seq<char>, Seq<char>> {
        secret_entries(self.entries)
    }
}

/// The stored value of `alias` in `scope`, if any.
pub open spec fn lookup(m: Map<Seq<char>, Seq<char>>, alias: Seq<char>, scope: CredentialScope) -> Option<
    Seq<char>,
> {
    if m.dom().contains(key_text(alias, scope)) {
        Some(m[key_text(alias, scope)])
    } else {
        None
    }
}

/// Key prefix shared by all credentials of a scope: `molt-hub:{scope}:`.
pub open spec fn scope_prefix(scope: CredentialScope) -> Seq<char> {
    "molt-hub:"@ + scope_text(scope) + ":"@
}

impl MemoryStore {
    /// An empty store.
    pub fn new() -> (s: Self)
        ensures
            s@ == Map::<Seq<char>, Seq<char>>::empty(),
    {
        MemoryStore { entries: secrets_new() }
    }

    /// Store `value` under `alias` in `scope`, replacing any previous value.
    /// An empty alias is refused.
    pub fn store(&mut self, alias: &str, scope: &CredentialScope, value: &str) -> (r: Result<
        (),
        CredentialError,
    >)
        ensures
            alias@.len() == 0 ==> (r matches Err(CredentialError::InvalidAlias(a)) && a@ == alias@
                && final(self)@ == old(self)@),
            alias@.len() > 0 ==> (r is Ok && final(self)@ == old(self)@.insert(
                key_text(alias@, *scope),
                value@,
            )),
    {
        if alias.is_empty() {
            return Err(CredentialError::InvalidAlias(string_from_literal(alias)));
        }
        let k = storage_key(alias, scope);
        secrets_insert(&mut self.entries, k, string_from_literal(value));
        Ok(())
    }

    /// The value of `alias` in `scope`; `NotFound` (with the scope's text)
    /// when none is stored.
    pub fn retrieve(&self, alias: &str, scope: &CredentialScope) -> (r: Result<String, CredentialError>)
        ensures
            match lookup(self@, alias@, *scope) {
                Some(v) => r matches Ok(s) && s@ == v,
                None => r matches Err(CredentialError::NotFound { alias: a, scope: s }) && a@
                    == alias@ && s@ == scope_text(*scope),
            },
    {
        let k = storage_key(alias, scope);
        match secrets_get(&self.entries, k.as_str()) {
            Some(v) => Ok(v),
            None => Err(
                CredentialError::NotFound {
                    alias: string_from_literal(alias),
                    scope: scope.to_string(),
                },
            ),
        }
    }

    /// Delete the credential of `alias` in `scope`; succeeds whether or not
    /// it existed.
    pub fn delete(&mut self, alias: &str, scope: &CredentialScope) -> (r: Result<(), CredentialError>)
        ensures
            r is Ok,
            final(self)@ == old(self)@.remove(key_text(alias@, *scope)),
    {
        let k = storage_key(alias, scope);
        secrets_remove(&mut self.entries, k.as_str());
        Ok(())
    }

    /// All aliases stored in `scope`, sorted ascending. A key of the scope's
    /// prefix whose remainder holds a further `:` belongs to a deeper scope
    /// (a pipeline `p:q` shares the prefix of pipeline `p`) and is not listed.
    pub fn list(&self, scope: &CredentialScope) -> (r: Result<Vec<String>, CredentialError>)
        ensures
            r matches Ok(v) && strictly_ascending(v@) && forall|a: Seq<char>|
                has_text(v@, a) <==> listed_in(self@, *scope, a),
    {
        let st = scope.to_string();
        let prefix_s = concat3("molt-hub:", st.as_str(), ":");
        let prefix = chars_of(prefix_s.as_str());
        let keys = secrets_keys(&self.entries);
        let mut aliases: Vec<String> = Vec::new();
        let mut i: usize = 0;
        while i < keys.len()
            invariant
                i <= keys.len(),
                prefix@ == scope_prefix(*scope),
                distinct_texts(keys@),
                forall|k: Seq<char>| has_text(keys@, k) <==> self@.dom().contains(k),
                distinct_texts(aliases@),
                forall|a: Seq<char>|
                    has_text(aliases@, a) <==> exists|j: int|
                        0 <= j < i && #[trigger] keys@[j]@ == prefix@ + a,
            decreases keys.len() - i,
        {
            let kv = chars_of(keys[i].as_str());
            if vec_has_prefix(&kv, &prefix) {
                let a = string_from_slice(&kv, prefix.len(), kv.len());
                assert(kv@ =~= prefix@ + a@);
                let ghost before = aliases@;
                proof {
                    assert forall|x: int| 0 <= x < before.len() implies #[trigger] before[x]@ != a@ by {
                        if before[x]@ == a@ {
                            assert(has_text(before, a@));
                            let j = choose|j: int| 0 <= j < i && #[trigger] keys@[j]@ == prefix@ + a@;
                            assert(keys@[j]@ == keys@[i as int]@);
                        }
                    }
                }
                aliases.push(a);
                proof {
                    assert forall|t: Seq<char>|
                        has_text(aliases@, t) <==> exists|j: int|
                            0 <= j < i + 1 && #[trigger] keys@[j]@ == prefix@ + t by {
                        if has_text(aliases@, t) {
                            let x = choose|x: int| 0 <= x < aliases@.len() && #[trigger] aliases@[x]@ == t;
                            if x < before.len() {
                                assert(before[x]@ == t);
                                assert(has_text(before, t));
                                let j = choose|j: int| 0 <= j < i && #[trigger] keys@[j]@ == prefix@ + t;
                                assert(keys@[j]@ == prefix@ + t);
                            } else {
                                assert(keys@[i as int]@ == prefix@ + t);
                            }
                        }
                        if exists|j: int| 0 <= j < i + 1 && #[trigger] keys@[j]@ == prefix@ + t {
                            let j = choose|j: int| 0 <= j < i + 1 && #[trigger] keys@[j]@ == prefix@ + t;
                            if j < i {
                                assert(keys@[j]@ == prefix@ + t);
                                assert(has_text(before, t));
                                let x = choose|x: int| 0 <= x < before.len() && #[trigger] before[x]@ == t;
                                assert(aliases@[x]@ == t);
                            } else {
                                assert((prefix@ + t).subrange(prefix@.len() as int, (prefix@ + t).len() as int) =~= t);
                                assert((prefix@ + a@).subrange(prefix@.len() as int, (prefix@ + a@).len() as int) =~= a@);
                                assert(aliases@[before.len() as int]@ == t);
                            }
                        }
                    }
                }
            } else {
                proof {
                    assert forall|t: Seq<char>|
                        has_text(aliases@, t) <==> exists|j: int|
                            0 <= j < i + 1 && #[trigger] keys@[j]@ == prefix@ + t by {
                        if exists|j: int| 0 <= j < i + 1 && #[trigger] keys@[j]@ == prefix@ + t {
                            let j = choose|j: int| 0 <= j < i + 1 && #[trigger] keys@[j]@ == prefix@ + t;
                            if j == i {
                                assert((prefix@ + t).take(prefix@.len() as int) =~= prefix@);
                                assert(has_prefix(kv@, prefix@));
                            } else {
                                assert(keys@[j]@ == prefix@ + t);
                            }
                        }
                    }
                }
            }
            i = i + 1;
        }
        proof {
            assert forall|a: Seq<char>|
                has_text(aliases@, a) <==> self@.dom().contains(scope_prefix(*scope) + a) by {
                if self@.dom().contains(prefix@ + a) {
                    assert(has_text(keys@, prefix@ + a));
                    let j = choose|j: int| 0 <= j < keys@.len() && #[trigger] keys@[j]@ == prefix@ + a;
                    assert(keys@[j]@ == prefix@ + a);
                }
                if has_text(aliases@, a) {
                    let j = choose|j: int| 0 <= j < keys@.len() && #[trigger] keys@[j]@ == prefix@ + a;
                    assert(has_text(keys@, prefix@ + a));
                }
            }
        }
        let own = without_separators(&aliases);
        let sorted = sort_strings(own);
        Ok(sorted)
    }
}

/// `a` holds no scope separator `:`.
pub open spec fn no_separator(a: Seq<char>) -> bool {
    forall|i: int| 0 <= i < a.len() ==> a[i] != ':'
}

/// `a` is an alias stored in `scope` of the entries `m`: a key is the
/// scope's prefix followed by `a`, and `a` holds no further separator.
pub open spec fn listed_in(m: Map<Seq<char>, Seq<char>>, scope: CredentialScope, a: Seq<char>) -> bool {
    m.dom().contains(scope_prefix(scope) + a) && no_separator(a)
}

fn has_no_separator(v: &Vec<char>) -> (r: bool)
    ensures
        r == no_separator(v@),
{
    let mut i: usize = 0;
    while i < v.len()
        invariant
            i <= v.len(),
            forall|j: int| 0 <= j < i ==> v@[j] != ':',
        decreases v.len() - i,
    {
        if v[i] == ':' {
            return false;
        }
        i = i + 1;
    }
    true
}

/// The texts of `v` that hold no separator, in order.
fn without_separators(v: &Vec<String>) -> (r: Vec<String>)
    requires
        distinct_texts(v@),
    ensures
        distinct_texts(r@),
        forall|a: Seq<char>| #![trigger has_text(r@, a)] has_text(r@, a) <==> (has_text(v@, a) && no_separator(a)),
{
    let mut r: Vec<String> = Vec::new();
    let mut i: usize = 0;
    while i < v.len()
        invariant
            i <= v.len(),
            distinct_texts(v@),
            distinct_texts(r@),
            forall|a: Seq<char>|
                #![trigger has_text(r@, a)]
                has_text(r@, a) <==> (exists|j: int| 0 <= j < i && #[trigger] v@[j]@ == a)
                    && no_separator(a),
        decreases v.len() - i,
    {
        let cs = chars_of(v[i].as_str());
        if has_no_separator(&cs) {
            let ghost before = r@;
            proof {
                assert forall|x: int| 0 <= x < before.len() implies #[trigger] before[x]@ != v@[i as int]@ by {
                    if before[x]@ == v@[i as int]@ {
                        assert(has_text(before, v@[i as int]@));
                        let j = choose|j: int| 0 <= j < i && #[trigger] v@[j]@ == v@[i as int]@;
                        assert(v@[j]@ == v@[i as int]@);
                    }
                }
            }
            r.push(v[i].clone());
            proof {
                assert forall|a: Seq<char>|
                    #![trigger has_text(r@, a)]
                    has_text(r@, a) <==> (exists|j: int| 0 <= j < i + 1 && #[trigger] v@[j]@ == a)
                        && no_separator(a) by {
                    if has_text(r@, a) {
                        let x = choose|x: int| 0 <= x < r@.len() && #[trigger] r@[x]@ == a;
                        if x < before.len() {
                            assert(before[x]@ == a);
                            assert(has_text(before, a));
                        } else {
                            assert(v@[i as int]@ == a);
                        }
                    }
                    if (exists|j: int| 0 <= j < i + 1 && #[trigger] v@[j]@ == a) && no_separator(a) {
                        let j = choose|j: int| 0 <= j < i + 1 && #[trigger] v@[j]@ == a;
                        if j < i {
                            assert(has_text(before, a));
                            let x = choose|x: int| 0 <= x < before.len() && #[trigger] before[x]@ == a;
                            assert(r@[x]@ == a);
                        } else {
                            assert(r@[before.len() as int]@ == a);
                        }
                    }
                }
            }
        } else {
            proof {
                assert forall|a: Seq<char>|
                    #![trigger has_text(r@, a)]
                    has_text(r@, a) <==> (exists|j: int| 0 <= j < i + 1 && #[trigger] v@[j]@ == a)
                        && no_separator(a) by {
                    if (exists|j: int| 0 <= j < i + 1 && #[trigger] v@[j]@ == a) && no_separator(a) {
                        let j = choose|j: int| 0 <= j < i + 1 && #[trigger] v@[j]@ == a;
                        if j == i {
                            assert(cs@ == v@[i as int]@);
                        }
                    }
                }
            }
        }
        i = i + 1;
    }
    proof {
        assert forall|a: Seq<char>| #![trigger has_text(r@, a)] has_text(r@, a) <==> (has_text(v@, a) && no_separator(a)) by {
            if has_text(v@, a) {
                let j = choose|j: int| 0 <= j < v@.len() && #[trigger] v@[j]@ == a;
                assert(v@[j]@ == a);
            }
        }
    }
    r
}

/// A read gives back what the last write stored.
pub proof fn law_read_your_write(
    m: Map<Seq<char>, Seq<char>>,
    alias: Seq<char>,
    scope: CredentialScope,
    value: Seq<char>,
)
    ensures
        lookup(m.insert(key_text(alias, scope), value), alias, scope) == Some(value),
{
}

/// Deleting a credential makes it unreadable.
pub proof fn law_delete_then_read(m: Map<Seq<char>, Seq<char>>, alias: Seq<char>, scope: CredentialScope)
    ensures
        lookup(m.remove(key_text(alias, scope)), alias, scope) is None,
{
}

/// Writing one credential leaves every credential with another storage key
/// unchanged.
pub proof fn law_write_isolated(
    m: Map<Seq<char>, Seq<char>>,
    alias: Seq<char>,
    scope: CredentialScope,
    value: Seq<char>,
    other_alias: Seq<char>,
    other_scope: CredentialScope,
)
    requires
        key_text(alias, scope) != key_text(other_alias, other_scope),
    ensures
        lookup(m.insert(key_text(alias, scope), value), other_alias, other_scope) == lookup(
            m,
            other_alias,
            other_scope,
        ),
{
}

proof fn lemma_separated_keys_differ(st: Seq<char>, x: Seq<char>, tt: Seq<char>, a: Seq<char>)
    requires
        st != tt,
        no_separator(x),
        no_separator(a),
    ensures
        "molt-hub:"@ + st + ":"@ + x != "molt-hub:"@ + tt + ":"@ + a,
{
    reveal_strlit("molt-hub:");
    reveal_strlit(":");
    let pl = "molt-hub:"@ + st + ":"@;
    let pr = "molt-hub:"@ + tt + ":"@;
    let l = pl + x;
    let r = pr + a;
    let ls: int = st.len() as int;
    let lt: int = tt.len() as int;
    assert(pl.len() == 10 + ls);
    assert(pr.len() == 10 + lt);
    assert(pl[9 + ls] == ':');
    assert(pr[9 + lt] == ':');
    assert(l.len() == pl.len() + x.len());
    assert(r.len() == pr.len() + a.len());
    if l == r {
        assert(l.len() == r.len());
        if ls == lt {
            assert(st =~= l.subrange(9, 9 + ls));
            assert(tt =~= r.subrange(9, 9 + lt));
        } else if ls < lt {
            let k = lt - ls - 1;
            assert(l[pl.len() + k] == x[k]);
            assert(r[9 + lt] == pr[9 + lt]);
        } else {
            let k = ls - lt - 1;
            assert(r[pr.len() + k] == a[k]);
            assert(l[9 + ls] == pl[9 + ls]);
        }
    }
}

/// Pipelines are isolated: storing an alias (without separator) in one
/// scope never changes which aliases another scope lists.
pub proof fn law_listing_isolated(
    m: Map<Seq<char>, Seq<char>>,
    alias: Seq<char>,
    scope: CredentialScope,
    value: Seq<char>,
    other: CredentialScope,
)
    requires
        scope_text(scope) != scope_text(other),
        no_separator(alias),
    ensures
        forall|x: Seq<char>|
            #[trigger] listed_in(m.insert(key_text(alias, scope), value), other, x) == listed_in(
                m,
                other,
                x,
            ),
{
    assert forall|x: Seq<char>|
        #[trigger] listed_in(m.insert(key_text(alias, scope), value), other, x) == listed_in(
            m,
            other,
            x,
        ) by {
        if no_separator(x) {
            lemma_separated_keys_differ(scope_text(other), x, scope_text(scope), alias);
            assert(scope_prefix(other) + x == "molt-hub:"@ + scope_text(other) + ":"@ + x);
        }
    }
}

/// Kind of a scope: global, project, pipeline or stage.
pub open spec fn scope_kind(s: CredentialScope) -> int {
    match s {
        CredentialScope::Global => 0,
        CredentialScope::Project(_) => 1,
        CredentialScope::Pipeline(_) => 2,
        CredentialScope::Stage(_, _) => 3,
    }
}

/// Scopes of different kinds never share a storage key, so a write in one
/// is never visible in another.
pub proof fn law_scope_kinds_isolated(a: Seq<char>, s: CredentialScope, b: Seq<char>, t: CredentialScope)
    requires
        scope_kind(s) != scope_kind(t),
    ensures
        key_text(a, s) != key_text(b, t),
{
    reveal_strlit("molt-hub:");
    reveal_strlit("global");
    reveal_strlit("project:");
    reveal_strlit("pipeline:");
    reveal_strlit("stage:");
    let ka = key_text(a, s);
    let kb = key_text(b, t);
    let i: int = 9;
    let j: int = 10;
    if ka == kb {
        assert(ka[i] == kb[i]);
        assert(ka[j] == kb[j]);
        assert(ka[i] == scope_text(s)[0]);
        assert(kb[i] == scope_text(t)[0]);
        assert(ka[j] == scope_text(s)[1]);
        assert(kb[j] == scope_text(t)[1]);
    }
}

} // verus!
