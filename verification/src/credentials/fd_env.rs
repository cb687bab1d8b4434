//! How a credential handed to an agent through a pipe is announced in the
//! agent's environment: `MOLT_CRED_{ALIAS}=fd:{N}`.

use vstd::prelude::*;

use crate::text::{chars_of, concat2, i64_to_string, push_str, signed_decimal, string_from_chars, string_from_literal};

verus! {

/// Unicode uppercase of a text (`str::to_uppercase`).
pub uninterp spec fn upper_text(s: Seq<char>) -> Seq<char>;

/// Unicode uppercase (`str::to_uppercase`), named [`upper_text`].
#[verifier::external_body]
fn to_uppercase(s: &str) -> (r: String)
    ensures
        r@ == upper_text(s@),
{
    s.to_uppercase()
}

/// `s` with every `-` replaced by `_`.
pub open spec fn dashes_to_underscores(s: Seq<char>) -> Seq<char> {
    s.map_values(|c: char| if c == '-' { '_' } else { c })
}

/// Environment variable naming the pipe of credential `alias`:
/// `MOLT_CRED_` and the alias uppercased, dashes turned into underscores.
pub open spec fn credential_env_key(alias: Seq<char>) -> Seq<char> {
    "MOLT_CRED_"@ + dashes_to_underscores(upper_text(alias))
}

/// The environment entry announcing credential `alias` on file descriptor
/// `fd`: `(MOLT_CRED_{ALIAS}, fd:{fd})`.
pub fn credential_fd_env(alias: &str, fd: i32) -> (r: (String, String))
    ensures
        r.0@ == credential_env_key(alias@),
        r.1@ == "fd:"@ + signed_decimal(fd as int),
{
    let up = to_uppercase(alias);
    let cs = chars_of(up.as_str());
    let mut out: Vec<char> = Vec::new();
    let mut i: usize = 0;
    while i < cs.len()
        invariant
            i <= cs.len(),
            out@ == dashes_to_underscores(cs@.take(i as int)),
        decreases cs.len() - i,
    {
        let c = cs[i];
        out.push(if c == '-' { '_' } else { c });
        i = i + 1;
        assert(dashes_to_underscores(cs@.take(i as int)) =~= dashes_to_underscores(
            cs@.take(i - 1),
        ).push(if cs@[i - 1] == '-' { '_' } else { cs@[i - 1] }));
    }
    assert(cs@.take(cs.len() as int) == cs@);
    let mut key = string_from_literal("MOLT_CRED_");
    let tail = string_from_chars(&out);
    push_str(&mut key, tail.as_str());
    let n = i64_to_string(fd as i64);
    (key, concat2("fd:", n.as_str()))
}

} // verus!
