//! In-memory ring buffer of recent output lines per agent, so that clients
//! joining late can fetch recent output over REST.

use std::collections::VecDeque;

use vstd::prelude::*;

use dashmap::DashMap;

use crate::ids::now_millis;
use crate::text::{chars_of, string_from_chars, string_from_literal};

verus! {

/// Default number of lines kept per agent.
pub const DEFAULT_CAPACITY: usize = 500;

/// One buffered output line; `timestamp` is in milliseconds since the Unix
/// epoch.
#[derive(Debug, Clone, PartialEq, Eq)]
pub struct OutputLine {
    pub line: String,
    pub timestamp: i64,
}

/// The concurrent map from agent id to its buffered lines.
pub type LineMap = DashMap<String, VecDeque<OutputLine>>;

/// Entries of a line map: agent id text to its lines, oldest first.
pub uninterp spec fn line_entries(m: LineMap) -> Map<Seq<char>, Seq<OutputLine>>;

/// An empty map (`DashMap::new`).
#[verifier::external_body]
fn lines_new() -> (r: LineMap)
    ensures
        line_entries(r) =~= Map::empty(),
{
    DashMap::new()
}

/// The lines of an agent, cloned (`DashMap::get`).
#[verifier::external_body]
fn lines_get(m: &LineMap, agent: &str) -> (r: Option<VecDeque<OutputLine>>)
    ensures
        r is Some <==> line_entries(*m).dom().contains(agent@),
        r matches Some(q) ==> q@ == line_entries(*m)[agent@],
{
    m.get(agent).map(|q| q.value().clone())
}

/// Set the lines of an agent (`DashMap::insert`).
#[verifier::external_body]
fn lines_insert(m: &mut LineMap, agent: String, lines: VecDeque<OutputLine>)
    ensures
        line_entries(*final(m)) == line_entries(*old(m)).insert(agent@, lines@),
{
    m.insert(agent, lines);
}

/// Remove the lines of an agent (`DashMap::remove`).
#[verifier::external_body]
fn lines_remove(m: &mut LineMap, agent: &str)
    ensures
        line_entries(*final(m)) == line_entries(*old(m)).remove(agent@),
{
    m.remove(agent);
}

/// Number of agents with lines (`DashMap::len`).
#[verifier::external_body]
fn lines_len(m: &LineMap) -> (n: usize)
    ensures
        n == line_entries(*m).dom().len(),
{
    m.len()
}

/// Buffer after appending `x` to `q` with capacity `cap`: when full, the
/// oldest line is dropped first.
pub open spec fn ring_push(q: Seq<OutputLine>, x: OutputLine, cap: usize) -> Seq<OutputLine> {
    if q.len() >= cap && q.len() > 0 {
        q.drop_first().push(x)
    } else {
        q.push(x)
    }
}

/// Output buffer for all agents: at most `capacity` recent lines each.
pub struct AgentOutputBuffer {
    buffers: LineMap,
    capacity: usize,
}

impl View for AgentOutputBuffer {
    type V = Map<Seq<char>, Seq<OutputLine>>;

    closed spec fn view(&self) -> Map<Seq<char>, Seq<OutputLine>> {
        line_entries(self.buffers)
    }
}

impl AgentOutputBuffer {
    /// Lines kept per agent.
    pub closed spec fn cap(&self) -> usize {
        self.capacity
    }

    /// A buffer keeping 500 lines per agent.
    pub fn new() -> (b: Self)
        ensures
            b@ =~= Map::empty(),
            b.cap() == DEFAULT_CAPACITY,
    {
        AgentOutputBuffer { buffers: lines_new(), capacity: DEFAULT_CAPACITY }
    }

    /// A buffer keeping `capacity` lines per agent.
    pub fn with_capacity(capacity: usize) -> (b: Self)
        ensures
            b@ =~= Map::empty(),
            b.cap() == capacity,
    {
        AgentOutputBuffer { buffers: lines_new(), capacity }
    }

    /// Append a line for an agent, dropping its oldest line when full.
    pub fn push(&mut self, agent_id: &str, line: String)
        ensures
            final(self).cap() == old(self).cap(),
            exists|t: i64|
                final(self)@ == old(self)@.insert(
                    agent_id@,
                    ring_push(
                        if old(self)@.dom().contains(agent_id@) {
                            old(self)@[agent_id@]
                        } else {
                            Seq::empty()
                        },
                        OutputLine { line, timestamp: t },
                        old(self).cap(),
                    ),
                ),
    {
        let mut q = match lines_get(&self.buffers, agent_id) {
            Some(q) => q,
            None => VecDeque::new(),
        };
        let ghost before = q@;
        if q.len() >= self.capacity {
            let _ = q.pop_front();
        }
        let x = OutputLine { line, timestamp: now_millis() };
        let ghost xv = x;
        q.push_back(x);
        assert(q@ =~= ring_push(before, xv, self.capacity));
        lines_insert(&mut self.buffers, string_from_literal(agent_id), q);
    }

    /// The buffered lines of an agent, oldest first (empty if none).
    pub fn get_lines(&self, agent_id: &str) -> (r: Vec<OutputLine>)
        ensures
            r@ == if self@.dom().contains(agent_id@) {
                self@[agent_id@]
            } else {
                Seq::empty()
            },
    {
        match lines_get(&self.buffers, agent_id) {
            Some(q) => {
                let mut r: Vec<OutputLine> = Vec::new();
                let mut i: usize = 0;
                while i < q.len()
                    invariant
                        i <= q@.len(),
                        r@ == q@.take(i as int),
                    decreases q@.len() - i,
                {
                    let l = &q[i];
                    r.push(OutputLine { line: l.line.clone(), timestamp: l.timestamp });
                    i = i + 1;
                    assert(r@ =~= q@.take(i as int));
                }
                assert(q@.take(q@.len() as int) =~= q@);
                r
            },
            None => Vec::new(),
        }
    }

    /// Drop all buffered output of an agent.
    pub fn clear_agent(&mut self, agent_id: &str)
        ensures
            final(self)@ == old(self)@.remove(agent_id@),
            final(self).cap() == old(self).cap(),
    {
        lines_remove(&mut self.buffers, agent_id);
    }

    /// Number of agents with buffered output.
    pub fn agent_count(&self) -> (n: usize)
        ensures
            n == self@.dom().len(),
    {
        lines_len(&self.buffers)
    }
}

/// Buffer holding lines `xs` pushed in order into an empty buffer.
pub open spec fn ring_fold(xs: Seq<OutputLine>, cap: usize) -> Seq<OutputLine>
    decreases xs.len(),
{
    if xs.len() == 0 {
        Seq::empty()
    } else {
        ring_push(ring_fold(xs.drop_last(), cap), xs.last(), cap)
    }
}

/// The buffer keeps exactly the most recent lines: after pushing `xs` into
/// an empty buffer it holds the last `max(cap, 1)` of them (all of them
/// when fewer were pushed), oldest first.
pub proof fn law_keeps_most_recent(xs: Seq<OutputLine>, cap: usize)
    ensures
        ({
            let keep: int = if cap >= 1 {
                cap as int
            } else {
                1
            };
            ring_fold(xs, cap) == if xs.len() <= keep {
                xs
            } else {
                xs.subrange(xs.len() - keep, xs.len() as int)
            }
        }),
    decreases xs.len(),
{
    let keep: int = if cap >= 1 {
        cap as int
    } else {
        1
    };
    if xs.len() > 0 {
        law_keeps_most_recent(xs.drop_last(), cap);
        let p = xs.drop_last();
        let q = ring_fold(p, cap);
        if p.len() <= keep {
            assert(q == p);
            if p.len() >= cap && p.len() > 0 {
                assert(p.len() == keep);
                assert(q.drop_first().push(xs.last()) =~= xs.subrange(xs.len() - keep, xs.len() as int));
            } else {
                assert(q.push(xs.last()) =~= xs);
            }
        } else {
            assert(q == p.subrange(p.len() - keep, p.len() as int));
            assert(q.len() == keep);
            assert(q.drop_first().push(xs.last()) =~= xs.subrange(xs.len() - keep, xs.len() as int));
        }
    }
}

} // verus!

verus! {

/// Splitting state: complete non-empty lines so far, and the unterminated
/// rest.
pub open spec fn split_step(st: (Seq<Seq<char>>, Seq<char>), c: char) -> (Seq<Seq<char>>, Seq<char>) {
    if c == '\n' {
        (
            if st.1.len() > 0 {
                st.0.push(st.1)
            } else {
                st.0
            },
            Seq::empty(),
        )
    } else {
        (st.0, st.1.push(c))
    }
}

/// Splitting state after reading `s` from state `st`.
pub open spec fn split_fold(st: (Seq<Seq<char>>, Seq<char>), s: Seq<char>) -> (Seq<Seq<char>>, Seq<char>)
    decreases s.len(),
{
    if s.len() == 0 {
        st
    } else {
        split_step(split_fold(st, s.drop_last()), s.last())
    }
}

/// The texts of a vector of strings.
pub open spec fn texts(v: Seq<String>) -> Seq<Seq<char>> {
    v.map_values(|s: String| s@)
}

fn feed(lines: &mut Vec<String>, cur: &mut Vec<char>, s: &str)
    ensures
        (texts(final(lines)@), final(cur)@) == split_fold((texts(old(lines)@), old(cur)@), s@),
{
    let sv = chars_of(s);
    let mut i: usize = 0;
    while i < sv.len()
        invariant
            i <= sv.len(),
            sv@ == s@,
            (texts(lines@), cur@) == split_fold((texts(old(lines)@), old(cur)@), sv@.take(i as int)),
        decreases sv.len() - i,
    {
        assert(sv@.take(i + 1).drop_last() =~= sv@.take(i as int));
        let c = sv[i];
        if c == '\n' {
            if cur.len() > 0 {
                let ghost before = lines@;
                lines.push(string_from_chars(cur));
                assert(texts(lines@) =~= texts(before).push(cur@));
            }
            *cur = Vec::new();
        } else {
            cur.push(c);
        }
        i = i + 1;
    }
    assert(sv@.take(sv.len() as int) =~= sv@);
}

/// Split buffered partial output plus a new chunk into the complete
/// non-empty lines it contains and the unterminated rest.
pub fn split_output(partial: &str, content: &str) -> (r: (Vec<String>, String))
    ensures
        (texts(r.0@), r.1@) == split_fold((Seq::empty(), Seq::empty()), partial@ + content@),
{
    let mut lines: Vec<String> = Vec::new();
    let mut cur: Vec<char> = Vec::new();
    assert(texts(lines@) =~= Seq::<Seq<char>>::empty());
    feed(&mut lines, &mut cur, partial);
    feed(&mut lines, &mut cur, content);
    proof {
        law_split_chunks((Seq::empty(), Seq::empty()), partial@, content@);
    }
    (lines, string_from_chars(&cur))
}

/// `s` without trailing carriage returns.
pub open spec fn trim_cr_end(s: Seq<char>) -> Seq<char>
    decreases s.len(),
{
    if s.len() > 0 && s.last() == '\r' {
        trim_cr_end(s.drop_last())
    } else {
        s
    }
}

/// The line to emit for the unterminated rest at the end of a turn:
/// the rest without trailing carriage returns, unless that is empty.
pub fn flush_partial(rest: &str) -> (r: Option<String>)
    ensures
        match r {
            Some(l) => l@ == trim_cr_end(rest@) && l@.len() > 0,
            None => trim_cr_end(rest@).len() == 0,
        },
{
    let v = chars_of(rest);
    let mut end: usize = v.len();
    assert(v@.take(end as int) =~= v@);
    while end > 0 && v[end - 1] == '\r'
        invariant
            end <= v.len(),
            trim_cr_end(v@) == trim_cr_end(v@.take(end as int)),
        decreases end,
    {
        assert(v@.take(end as int).drop_last() =~= v@.take(end - 1));
        end = end - 1;
    }
    if end == 0 {
        None
    } else {
        let mut w: Vec<char> = Vec::new();
        let mut i: usize = 0;
        while i < end
            invariant
                i <= end <= v.len(),
                w@ == v@.take(i as int),
            decreases end - i,
        {
            w.push(v[i]);
            i = i + 1;
            assert(w@ =~= v@.take(i as int));
        }
        Some(string_from_chars(&w))
    }
}

/// Chunk boundaries do not matter: reading `a` then `b` splits exactly as
/// reading `a + b`.
pub proof fn law_split_chunks(st: (Seq<Seq<char>>, Seq<char>), a: Seq<char>, b: Seq<char>)
    ensures
        split_fold(split_fold(st, a), b) == split_fold(st, a + b),
    decreases b.len(),
{
    if b.len() == 0 {
        assert(a + b =~= a);
    } else {
        law_split_chunks(st, a, b.drop_last());
        assert((a + b).drop_last() =~= a + b.drop_last());
        assert((a + b).last() == b.last());
    }
}

} // verus!
