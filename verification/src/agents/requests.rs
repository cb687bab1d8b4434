//! Decisions behind the agent endpoints: which adapter a spawn uses and with
//! which configuration, how a task title is suggested and cleaned up, and
//! how supervisor outcomes become HTTP answers.

use vstd::prelude::*;

use super::output_buffer::OutputLine;
use crate::integrations::json::{find_field, JsonValue};
use crate::text::{
    chars_of, concat2, concat3, decimal, find_char, is_ws, push_str, str_eq, string_from_chars,
    string_from_literal, string_from_slice, trim, trim_str, u64_to_string, vec_find_char,
};

verus! {

/// `{:?}` rendering of a string (quoted, with escapes).
pub uninterp spec fn str_debug(s: Seq<char>) -> Seq<char>;

/// Render a string with std's `Debug` (`format!("{:?}")`).
#[verifier::external_body]
pub(crate) fn debug_str(s: &str) -> (r: String)
    ensures
        r@ == str_debug(s@),
{
    format!("{:?}", s)
}

/// `names` joined with `", "`.
pub open spec fn join_commas(names: Seq<Seq<char>>) -> Seq<char>
    decreases names.len(),
{
    if names.len() == 0 {
        Seq::empty()
    } else if names.len() == 1 {
        names[0]
    } else {
        join_commas(names.drop_last()) + ", "@ + names.last()
    }
}

/// The views of a vector of strings.
pub open spec fn name_views(v: Seq<String>) -> Seq<Seq<char>> {
    v.map_values(|s: String| s@)
}

fn join_names(names: &Vec<String>) -> (s: String)
    ensures
        s@ == join_commas(name_views(names@)),
{
    let mut s = String::new();
    let mut i: usize = 0;
    while i < names.len()
        invariant
            i <= names.len(),
            s@ == join_commas(name_views(names@.take(i as int))),
        decreases names.len() - i,
    {
        if i > 0 {
            push_str(&mut s, ", ");
        }
        push_str(&mut s, names[i].as_str());
        i = i + 1;
        assert(name_views(names@.take(i as int)).drop_last() == name_views(names@.take(i - 1)));
    }
    assert(names@.take(names.len() as int) == names@);
    s
}

/// Message answered for an adapter type outside `known`.
pub open spec fn unknown_adapter_message(t: Seq<char>, known: Seq<Seq<char>>) -> Seq<char> {
    "unknown adapter_type "@ + str_debug(t) + "; valid values: "@ + join_commas(known)
}

/// Whether a spawn may use `adapter_type`, one of the adapter types the
/// harness knows (`known_types`): a 400 answer listing the valid types when
/// it is not.
pub fn check_spawn_adapter(adapter_type: &str, known_types: &Vec<String>) -> (r: Result<(), (u16, String)>)
    ensures
        name_views(known_types@).contains(adapter_type@) <==> r is Ok,
        r matches Err(e) ==> e.0 == 400 && e.1@ == unknown_adapter_message(
            adapter_type@,
            name_views(known_types@),
        ),
{
    if crate::text::contains_str(known_types, adapter_type) {
        proof {
            let k = choose|k: int| 0 <= k < known_types.len() && #[trigger] known_types@[k]@ == adapter_type@;
            assert(name_views(known_types@)[k] == adapter_type@);
        }
        Ok(())
    } else {
        proof {
            assert forall|k: int| 0 <= k < name_views(known_types@).len() implies name_views(
                known_types@,
            )[k] != adapter_type@ by {
                assert(name_views(known_types@)[k] == known_types@[k]@);
            }
        }
        let d = debug_str(adapter_type);
        let mut m = concat2("unknown adapter_type ", d.as_str());
        push_str(&mut m, "; valid values: ");
        let list = join_names(known_types);
        push_str(&mut m, list.as_str());
        Err((400, m))
    }
}

/// The harness kind of the adapter named in the settings (trimmed).
pub fn settings_adapter_kind(settings_adapter: &str) -> (s: String)
    ensures
        s@ == trim(settings_adapter@),
{
    trim_str(settings_adapter)
}

/// Adapter a spawn uses: the requested one trimmed, or the settings default
/// (as stored) when the request leaves it blank.
pub fn resolve_spawn_adapter_type(requested: &str, settings_default: &str) -> (s: String)
    ensures
        s@ == if trim(requested@).len() == 0 {
            settings_default@
        } else {
            trim(requested@)
        },
{
    let t = trim_str(requested);
    if t.as_str().is_empty() {
        string_from_literal(settings_default)
    } else {
        t
    }
}

/// Instructions asking an agent for a short task title.
pub open spec fn title_prompt_text(draft: Seq<char>) -> Seq<char> {
    "You are helping label a task in a tracker. Reply with exactly one short title: maximum 80 characters, plain text only. No quotation marks, no markdown, no bullets, no trailing period. Base it on this draft:\n\n"@
        + trim(draft)
}

/// The instructions of a title suggestion for `draft`.
pub fn task_title_prompt(draft: &str) -> (s: String)
    ensures
        s@ == title_prompt_text(draft@),
{
    let t = trim_str(draft);
    concat2(
        "You are helping label a task in a tracker. Reply with exactly one short title: maximum 80 characters, plain text only. No quotation marks, no markdown, no bullets, no trailing period. Base it on this draft:\n\n",
        t.as_str(),
    )
}

/// Seconds a title suggestion may take: the agent timeout in seconds,
/// kept between 15 and 120.
pub open spec fn title_timeout_secs(minutes: u32) -> u64 {
    let s = minutes * 60;
    if s < 15 {
        15
    } else if s > 120 {
        120
    } else {
        s as u64
    }
}

/// Seconds a title suggestion may take for an agent timeout in minutes.
pub fn title_suggestion_timeout(agent_timeout_minutes: u32) -> (secs: u64)
    ensures
        secs == title_timeout_secs(agent_timeout_minutes),
{
    let secs: u64 = (agent_timeout_minutes as u64) * 60;
    if secs < 15 {
        15
    } else if secs > 120 {
        120
    } else {
        secs
    }
}

/// `c` is a quotation mark a title may be wrapped in.
pub open spec fn is_quote(c: char) -> bool {
    c == '"' || c == '\'' || c == '`'
}

/// `s` without leading quotation marks.
pub open spec fn strip_quotes_start(s: Seq<char>) -> Seq<char>
    decreases s.len(),
{
    if s.len() > 0 && is_quote(s[0]) {
        strip_quotes_start(s.drop_first())
    } else {
        s
    }
}

/// `s` without trailing quotation marks.
pub open spec fn strip_quotes_end(s: Seq<char>) -> Seq<char>
    decreases s.len(),
{
    if s.len() > 0 && is_quote(s.last()) {
        strip_quotes_end(s.drop_last())
    } else {
        s
    }
}

/// The first line of `s`, trimmed, when `s` has several lines; else `s`.
pub open spec fn first_line(s: Seq<char>) -> Seq<char> {
    match find_char(s, '\n') {
        Some(i) => trim(s.take(i)),
        None => s,
    }
}

/// At most the first 100 characters of `s`.
pub open spec fn take_chars(s: Seq<char>, n: nat) -> Seq<char> {
    if s.len() > n {
        s.take(n as int)
    } else {
        s
    }
}

/// A suggested title cleaned up: trimmed, without surrounding quotation
/// marks, its first line only, at most 100 characters.
pub open spec fn sanitized_title(raw: Seq<char>) -> Seq<char> {
    take_chars(first_line(strip_quotes_end(strip_quotes_start(trim(raw)))), 100)
}

proof fn lemma_strip_start_skip(s: Seq<char>, i: int)
    requires
        0 <= i <= s.len(),
        forall|j: int| 0 <= j < i ==> is_quote(s[j]),
    ensures
        strip_quotes_start(s) == strip_quotes_start(s.subrange(i, s.len() as int)),
    decreases i,
{
    if i > 0 {
        assert(s.drop_first().subrange(i - 1, s.drop_first().len() as int) == s.subrange(
            i,
            s.len() as int,
        ));
        lemma_strip_start_skip(s.drop_first(), i - 1);
    } else {
        assert(s.subrange(0, s.len() as int) == s);
    }
}

proof fn lemma_strip_end_skip(s: Seq<char>, e: int)
    requires
        0 <= e <= s.len(),
        forall|j: int| e <= j < s.len() ==> is_quote(s[j]),
    ensures
        strip_quotes_end(s) == strip_quotes_end(s.take(e)),
    decreases s.len() - e,
{
    if e < s.len() {
        assert(s.drop_last().take(e) == s.take(e));
        lemma_strip_end_skip(s.drop_last(), e);
    } else {
        assert(s.take(e) == s);
    }
}

fn char_is_quote(c: char) -> (b: bool)
    ensures
        b == is_quote(c),
{
    c == '"' || c == '\'' || c == '`'
}

fn strip_quotes(v: &Vec<char>) -> (r: Vec<char>)
    ensures
        r@ == strip_quotes_end(strip_quotes_start(v@)),
{
    let mut start: usize = 0;
    while start < v.len() && char_is_quote(v[start])
        invariant
            start <= v.len(),
            forall|j: int| 0 <= j < start ==> is_quote(v@[j]),
        decreases v.len() - start,
    {
        start = start + 1;
    }
    proof {
        lemma_strip_start_skip(v@, start as int);
    }
    let ghost rest = v@.subrange(start as int, v.len() as int);
    assert(strip_quotes_start(rest) == rest);
    let mut end: usize = v.len();
    while end > start && char_is_quote(v[end - 1])
        invariant
            start <= end <= v.len(),
            forall|j: int| end <= j < v.len() ==> is_quote(v@[j]),
        decreases end,
    {
        end = end - 1;
    }
    proof {
        lemma_strip_end_skip(rest, end - start);
        assert(rest.take(end - start) == v@.subrange(start as int, end as int));
    }
    let mut r: Vec<char> = Vec::new();
    let mut i: usize = start;
    while i < end
        invariant
            start <= i <= end <= v.len(),
            r@ == v@.subrange(start as int, i as int),
        decreases end - i,
    {
        r.push(v[i]);
        i = i + 1;
    }
    r
}

/// A suggested title cleaned up for display.
pub fn sanitize_suggested_title(raw: &str) -> (s: String)
    ensures
        s@ == sanitized_title(raw@),
{
    let t = trim_str(raw);
    let tv = chars_of(t.as_str());
    let q = strip_quotes(&tv);
    let line: Vec<char> = match vec_find_char(&q, '\n') {
        Some(i) => {
            let head = string_from_slice(&q, 0, i);
            assert(head@ == q@.take(i as int));
            let h = trim_str(head.as_str());
            chars_of(h.as_str())
        },
        None => q,
    };
    if line.len() > 100 {
        string_from_slice(&line, 0, 100)
    } else {
        string_from_chars(&line)
    }
}

/// The pieces of `s` between newlines.
pub open spec fn split_lines(s: Seq<char>) -> Seq<Seq<char>>
    decreases s.len(),
{
    if s.len() == 0 {
        seq![Seq::empty()]
    } else {
        let prev = split_lines(s.drop_last());
        if s.last() == '\n' {
            prev.push(Seq::empty())
        } else {
            prev.update(prev.len() - 1, prev.last().push(s.last()))
        }
    }
}

/// The first of `lines` that is not blank, trimmed; empty when all are.
pub open spec fn first_nonblank(lines: Seq<Seq<char>>) -> Seq<char>
    decreases lines.len(),
{
    if lines.len() == 0 {
        Seq::empty()
    } else if trim(lines[0]).len() > 0 {
        trim(lines[0])
    } else {
        first_nonblank(lines.drop_first())
    }
}

/// A title derived from the draft alone: its first non-blank line, cleaned
/// up as a suggested title.
pub open spec fn heuristic_title(draft: Seq<char>) -> Seq<char> {
    sanitized_title(first_nonblank(split_lines(draft)))
}

fn lines_of(s: &str) -> (r: Vec<String>)
    ensures
        r@.map_values(|x: String| x@) == split_lines(s@),
{
    let cs = chars_of(s);
    let mut done: Vec<String> = Vec::new();
    let mut cur = String::new();
    let mut i: usize = 0;
    while i < cs.len()
        invariant
            i <= cs.len(),
            cs@ == s@,
            split_lines(cs@.take(i as int)) == done@.map_values(|x: String| x@).push(cur@),
        decreases cs.len() - i,
    {
        let c = cs[i];
        let ghost before = done@.map_values(|x: String| x@).push(cur@);
        assert(cs@.take(i + 1).drop_last() == cs@.take(i as int));
        if c == '\n' {
            done.push(cur);
            cur = String::new();
            assert(done@.map_values(|x: String| x@) == before);
        } else {
            crate::text::push_char(&mut cur, c);
            assert(done@.map_values(|x: String| x@).push(cur@) == before.update(
                before.len() - 1,
                before.last().push(c),
            ));
        }
        i = i + 1;
    }
    assert(cs@.take(cs.len() as int) == cs@);
    done.push(cur);
    done
}

/// A task title derived from the draft alone.
pub fn heuristic_title_from_draft(draft: &str) -> (s: String)
    ensures
        s@ == heuristic_title(draft@),
{
    let lines = lines_of(draft);
    let ghost ls = lines@.map_values(|x: String| x@);
    let mut i: usize = 0;
    assert(ls.skip(0) == ls);
    while i < lines.len()
        invariant
            i <= lines.len(),
            ls == lines@.map_values(|x: String| x@),
            ls == split_lines(draft@),
            first_nonblank(ls) == first_nonblank(ls.skip(i as int)),
        decreases lines.len() - i,
    {
        let t = trim_str(lines[i].as_str());
        assert(ls.skip(i as int)[0] == lines@[i as int]@);
        assert(ls.skip(i as int).drop_first() == ls.skip(i + 1));
        if !t.as_str().is_empty() {
            return sanitize_suggested_title(t.as_str());
        }
        i = i + 1;
    }
    assert(ls.skip(lines.len() as int) =~= Seq::<Seq<char>>::empty());
    proof {
        reveal_strlit("");
    }
    sanitize_suggested_title("")
}

/// Outcome of a title suggestion request.
#[derive(Debug, Clone)]
pub enum TitleSuggestion {
    /// A title, with where it came from (`acp`, `heuristic` or `fallback`).
    Title { title: String, source: String },
    /// An error answer.
    Error { status: u16, message: String },
}

/// Answer to a title suggestion once the agent has replied (`reply` is
/// `None` when it failed or timed out): the cleaned reply when it is not
/// empty, else the heuristic title, else an error. A blank draft is refused.
pub fn title_suggestion_outcome(draft: &str, reply: Option<&str>) -> (r: TitleSuggestion)
    ensures
        trim(draft@).len() == 0 ==> (r matches TitleSuggestion::Error { status, message } && status
            == 400 && message@ == "text must not be empty"@),
        trim(draft@).len() > 0 ==> match reply {
            Some(raw) if sanitized_title(raw@).len() > 0 => r matches TitleSuggestion::Title {
                title,
                source,
            } && title@ == sanitized_title(raw@) && source@ == "acp"@,
            _ => if heuristic_title(trim(draft@)).len() > 0 {
                r matches TitleSuggestion::Title { title, source } && title@ == heuristic_title(
                    trim(draft@),
                ) && source@ == "heuristic"@
            } else {
                r matches TitleSuggestion::Error { status, message } && status == 422 && message@
                    == "could not derive a title from the provided text"@
            },
        },
{
    let d = trim_str(draft);
    if d.as_str().is_empty() {
        return TitleSuggestion::Error {
            status: 400,
            message: string_from_literal("text must not be empty"),
        };
    }
    match reply {
        Some(raw) => {
            let t = sanitize_suggested_title(raw);
            if !t.as_str().is_empty() {
                return TitleSuggestion::Title { title: t, source: string_from_literal("acp") };
            }
        },
        None => {},
    }
    let h = heuristic_title_from_draft(d.as_str());
    if h.as_str().is_empty() {
        TitleSuggestion::Error {
            status: 422,
            message: string_from_literal("could not derive a title from the provided text"),
        }
    } else {
        TitleSuggestion::Title { title: h, source: string_from_literal("heuristic") }
    }
}

/// A configured harness (agent runtime) from the settings.
#[derive(Debug, Clone)]
pub struct HarnessEntry {
    pub adapter_type: String,
    pub enabled: bool,
    pub command: Option<String>,
}

/// Index of the first enabled harness for `adapter_type`, from `i` on.
pub open spec fn harness_pos_from(hs: Seq<HarnessEntry>, adapter_type: Seq<char>, i: int) -> int
    decreases hs.len() - i,
{
    if i < 0 || i >= hs.len() {
        -1
    } else if hs[i].adapter_type@ == adapter_type && hs[i].enabled {
        i
    } else {
        harness_pos_from(hs, adapter_type, i + 1)
    }
}

/// Custom command of the first enabled harness for `adapter_type`, if it
/// has one.
pub fn harness_command(harnesses: &Vec<HarnessEntry>, adapter_type: &str) -> (r: Option<String>)
    ensures
        ({
            let k = harness_pos_from(harnesses@, adapter_type@, 0);
            if 0 <= k < harnesses.len() {
                match harnesses@[k].command {
                    Some(c) => r is Some && r->0@ == c@,
                    None => r is None,
                }
            } else {
                r is None
            }
        }),
{
    let mut i: usize = 0;
    while i < harnesses.len()
        invariant
            i <= harnesses.len(),
            harness_pos_from(harnesses@, adapter_type@, 0) == harness_pos_from(
                harnesses@,
                adapter_type@,
                i as int,
            ),
        decreases harnesses.len() - i,
    {
        if harnesses[i].enabled && str_eq(harnesses[i].adapter_type.as_str(), adapter_type) {
            return match &harnesses[i].command {
                Some(c) => Some(c.clone()),
                None => None,
            };
        }
        i = i + 1;
    }
    None
}

/// Whether object members `fields` hold a member named `key`.
pub open spec fn has_member(fields: Seq<(String, JsonValue)>, key: Seq<char>) -> bool {
    crate::integrations::json::field_pos(fields, key) >= 0
}

/// `after` is the members `before` with a string member `key` = `value`
/// appended when `before` has no member `key`, else `before` unchanged.
pub open spec fn with_default_member(
    before: Seq<(String, JsonValue)>,
    after: Seq<(String, JsonValue)>,
    key: Seq<char>,
    value: Seq<char>,
) -> bool {
    if has_member(before, key) {
        after == before
    } else {
        &&& after.len() == before.len() + 1
        &&& after.drop_last() == before
        &&& after.last().0@ == key
        &&& after.last().1 matches JsonValue::String(v) && v@ == value
    }
}

/// The adapter configuration built from the members `f` of the request's
/// configuration: `adapter_type` = the adapter type added when missing,
/// then, with a harness command `c`, `command` = `c` added when missing.
pub open spec fn spawn_config_members(
    f: Seq<(String, JsonValue)>,
    g: Seq<(String, JsonValue)>,
    adapter_type: Seq<char>,
    command: Option<Seq<char>>,
) -> bool {
    exists|mid: Seq<(String, JsonValue)>|
        #[trigger] with_default_member(f, mid, "adapter_type"@, adapter_type) && match command {
            Some(c) => with_default_member(mid, g, "command"@, c),
            None => g == mid,
        }
}

fn add_default_member(fields: &mut Vec<(String, JsonValue)>, key: &str, value: &str)
    ensures
        with_default_member(old(fields)@, final(fields)@, key@, value@),
{
    match find_field(fields, key) {
        Some(_) => {},
        None => {
            fields.push((string_from_literal(key), JsonValue::String(string_from_literal(value))));
            assert(fields@.drop_last() =~= old(fields)@);
        },
    }
}

/// Adapter configuration of a spawn: the request's configuration (an empty
/// object when absent); when it is an object it gains `adapter_type` and,
/// with a harness command, `command`, each only when missing.
pub fn spawn_adapter_config(config: Option<JsonValue>, adapter_type: &str, command: Option<&str>) -> (r: JsonValue)
    ensures
        match config {
            Some(JsonValue::Object(f)) => r matches JsonValue::Object(g) && spawn_config_members(
                f@,
                g@,
                adapter_type@,
                match command {
                    Some(c) => Some(c@),
                    None => None,
                },
            ) && {
                &&& has_member(g@, "adapter_type"@)
                &&& (command is Some ==> has_member(g@, "command"@))
                &&& g@.len() >= f@.len()
                &&& g@.take(f@.len() as int) == f@
            },
            Some(JsonValue::Null) => r matches JsonValue::Null,
            Some(JsonValue::Bool(b)) => r == JsonValue::Bool(b),
            Some(JsonValue::Number(n)) => r matches JsonValue::Number(m) && m == n,
            Some(JsonValue::String(s)) => r matches JsonValue::String(t) && t == s,
            Some(JsonValue::Array(a)) => r matches JsonValue::Array(b) && b == a,
            None => r matches JsonValue::Object(g) && spawn_config_members(
                Seq::empty(),
                g@,
                adapter_type@,
                match command {
                    Some(c) => Some(c@),
                    None => None,
                },
            ) && has_member(g@, "adapter_type"@),
        },
{
    let cfg = match config {
        Some(c) => c,
        None => JsonValue::Object(Vec::new()),
    };
    match cfg {
        JsonValue::Object(mut fields) => {
            let ghost f0 = fields@;
            add_default_member(&mut fields, "adapter_type", adapter_type);
            let ghost f1 = fields@;
            proof {
                lemma_member_kept(f0, f1, "adapter_type"@, "adapter_type"@);
            }
            match command {
                Some(c) => {
                    add_default_member(&mut fields, "command", c);
                    proof {
                        lemma_member_kept(f1, fields@, "adapter_type"@, "command"@);
                        lemma_member_kept(f1, fields@, "command"@, "command"@);
                        assert(fields@.take(f0.len() as int) == f0);
                    }
                },
                None => {},
            }
            assert(with_default_member(f0, f1, "adapter_type"@, adapter_type@));
            JsonValue::Object(fields)
        },
        other => other,
    }
}

proof fn lemma_member_kept(
    before: Seq<(String, JsonValue)>,
    after: Seq<(String, JsonValue)>,
    key: Seq<char>,
    added: Seq<char>,
)
    requires
        after == before || (after.len() == before.len() + 1 && after.drop_last() == before
            && after.last().0@ == added),
    ensures
        has_member(before, key) ==> has_member(after, key),
        after != before && key == added ==> has_member(after, key),
{
    if after != before {
        if has_member(before, key) {
            lemma_pos_prefix(before, after, key, 0);
        }
        if key == added {
            lemma_pos_exists(after, key, 0, after.len() - 1);
        }
    }
}

proof fn lemma_pos_exists(fields: Seq<(String, JsonValue)>, key: Seq<char>, i: int, j: int)
    requires
        0 <= i <= j < fields.len(),
        fields[j].0@ == key,
    ensures
        crate::integrations::json::field_pos_from(fields, key, i) >= 0,
    decreases j - i,
{
    if fields[i].0@ != key {
        lemma_pos_exists(fields, key, i + 1, j);
    }
}

proof fn lemma_pos_prefix(before: Seq<(String, JsonValue)>, after: Seq<(String, JsonValue)>, key: Seq<char>, i: int)
    requires
        after.drop_last() == before,
        after.len() == before.len() + 1,
        0 <= i,
        crate::integrations::json::field_pos_from(before, key, i) >= 0,
    ensures
        crate::integrations::json::field_pos_from(after, key, i) >= 0,
    decreases before.len() - i,
{
    if i < before.len() && before[i].0@ != key {
        assert(after[i] == before[i]);
        lemma_pos_prefix(before, after, key, i + 1);
    } else if i < before.len() {
        assert(after[i] == before[i]);
    }
}

/// Priority of a steering message.
#[derive(Debug, Clone, Copy, PartialEq, Eq, Structural)]
pub enum SteerPriority {
    Normal,
    Urgent,
}

/// Body of `POST /api/agents/:id/steer`.
#[derive(Debug, Clone, PartialEq, Eq)]
pub struct SteerRequest {
    /// Message to send to the running agent.
    pub message: String,
    /// Priority of the steering message (default: normal).
    pub priority: Option<String>,
}

impl SteerRequest {
    /// The priority the request asks for (see [`steer_priority`]).
    pub fn steer_priority(&self) -> (p: SteerPriority)
        ensures
            p == (if self.priority matches Some(s) && s@ == "urgent"@ {
                SteerPriority::Urgent
            } else {
                SteerPriority::Normal
            }),
    {
        match &self.priority {
            Some(s) => steer_priority(Some(s.as_str())),
            None => steer_priority(None),
        }
    }
}

/// A steer message as the history keeps it.
#[derive(Debug, Clone, PartialEq, Eq)]
pub struct SteerMessageRow {
    pub id: i64,
    pub agent_id: String,
    pub timestamp: String,
    pub role: String,
    pub content: String,
    pub priority: Option<String>,
}

/// Priority of a steering request: urgent only when it says `urgent`.
pub fn steer_priority(priority: Option<&str>) -> (p: SteerPriority)
    ensures
        p == (if priority matches Some(s) && s@ == "urgent"@ {
            SteerPriority::Urgent
        } else {
            SteerPriority::Normal
        }),
{
    match priority {
        Some(s) => if str_eq(s, "urgent") {
            SteerPriority::Urgent
        } else {
            SteerPriority::Normal
        },
        None => SteerPriority::Normal,
    }
}

/// Generic message answer.
#[derive(Debug, Clone)]
pub struct MessageResponse {
    pub message: String,
}

/// Answer of a successful spawn.
#[derive(Debug, Clone)]
pub struct SpawnResponse {
    pub agent_id: String,
    pub message: String,
}

/// Answer of a delivered steering message.
#[derive(Debug, Clone)]
pub struct SteerResponse {
    pub delivered: bool,
    pub agent_id: String,
}

/// Why the supervisor refused a spawn; other failures carry their text.
#[derive(Debug, Clone)]
pub enum SpawnFailure {
    MaxAgentsReached(usize),
    AdapterError(String),
    Other(String),
}

/// Answer to a successful spawn of agent `id`.
pub fn spawn_success(id: &str) -> (r: SpawnResponse)
    ensures
        r.agent_id@ == id@,
        r.message@ == "agent "@ + id@ + " spawned"@,
{
    SpawnResponse { agent_id: string_from_literal(id), message: concat3("agent ", id, " spawned") }
}

/// Status and message for a refused spawn: 503 at the agent limit, 502 for
/// an adapter error, 500 otherwise.
pub fn spawn_failure_response(f: &SpawnFailure) -> (r: (u16, MessageResponse))
    ensures
        match f {
            SpawnFailure::MaxAgentsReached(n) => r.0 == 503 && r.1.message@
                == "maximum concurrent agents reached ("@ + decimal(*n as nat) + ")"@,
            SpawnFailure::AdapterError(e) => r.0 == 502 && r.1.message@ == "adapter error: "@ + e@,
            SpawnFailure::Other(e) => r.0 == 500 && r.1.message@ == "spawn failed: "@ + e@,
        },
{
    match f {
        SpawnFailure::MaxAgentsReached(n) => {
            let d = u64_to_string(*n as u64);
            (503, MessageResponse { message: concat3("maximum concurrent agents reached (", d.as_str(), ")") })
        },
        SpawnFailure::AdapterError(e) => (502, MessageResponse { message: concat2("adapter error: ", e.as_str()) }),
        SpawnFailure::Other(e) => (500, MessageResponse { message: concat2("spawn failed: ", e.as_str()) }),
    }
}

/// Answer to a spawn request without a working directory.
pub fn check_working_dir(working_dir: &str) -> (r: Result<String, (u16, MessageResponse)>)
    ensures
        trim(working_dir@).len() == 0 ==> (r matches Err(e) && e.0 == 400 && e.1.message@
            == "working_dir must not be empty"@),
        trim(working_dir@).len() > 0 ==> (r matches Ok(d) && d@ == trim(working_dir@)),
{
    let t = trim_str(working_dir);
    if t.as_str().is_empty() {
        Err((400, MessageResponse { message: string_from_literal("working_dir must not be empty") }))
    } else {
        Ok(t)
    }
}

/// Why a steering message was not delivered; other failures carry their text.
#[derive(Debug, Clone)]
pub enum SteerFailure {
    AgentNotFound,
    AgentNotRunning,
    Other(String),
}

/// Status and message for an undelivered steering message to agent `id`:
/// 404 when unknown, 409 when not running, 500 otherwise.
pub fn steer_failure_response(id: &str, f: &SteerFailure) -> (r: (u16, MessageResponse))
    ensures
        match f {
            SteerFailure::AgentNotFound => r.0 == 404 && r.1.message@ == "agent not found: "@ + id@,
            SteerFailure::AgentNotRunning => r.0 == 409 && r.1.message@ == "agent not running: "@ + id@,
            SteerFailure::Other(e) => r.0 == 500 && r.1.message@ == "steer failed: "@ + e@,
        },
{
    match f {
        SteerFailure::AgentNotFound => (404, MessageResponse { message: concat2("agent not found: ", id) }),
        SteerFailure::AgentNotRunning => (409, MessageResponse { message: concat2("agent not running: ", id) }),
        SteerFailure::Other(e) => (500, MessageResponse { message: concat2("steer failed: ", e.as_str()) }),
    }
}

/// An action on a running agent.
#[derive(Debug, Clone, Copy, PartialEq, Eq, Structural)]
pub enum AgentAction {
    Terminate,
    Pause,
    Resume,
}

/// `(infinitive, past participle)` of an action, as the messages use them.
pub open spec fn action_words(a: AgentAction) -> (Seq<char>, Seq<char>) {
    match a {
        AgentAction::Terminate => ("terminate"@, "terminated"@),
        AgentAction::Pause => ("pause"@, "paused"@),
        AgentAction::Resume => ("resume"@, "resumed"@),
    }
}

/// Answer to an agent id that is not a ULID.
pub fn invalid_agent_id_response(id: &str) -> (r: (u16, MessageResponse))
    ensures
        r.0 == 400,
        r.1.message@ == "invalid agent ID: "@ + id@,
{
    (400, MessageResponse { message: concat2("invalid agent ID: ", id) })
}

/// Answer to an action on agent `id`: 200 with a confirmation, or 404 with
/// the supervisor's error text.
pub fn agent_action_response(action: AgentAction, id: &str, result: Result<(), String>) -> (r: (u16, MessageResponse))
    ensures
        match result {
            Ok(()) => r.0 == 200 && r.1.message@ == "agent "@ + id@ + " "@ + action_words(action).1,
            Err(e) => r.0 == 404 && r.1.message@ == "failed to "@ + action_words(action).0
                + " agent: "@ + e@,
        },
{
    let (verb, done) = match action {
        AgentAction::Terminate => ("terminate", "terminated"),
        AgentAction::Pause => ("pause", "paused"),
        AgentAction::Resume => ("resume", "resumed"),
    };
    match result {
        Ok(()) => {
            let mut m = concat3("agent ", id, " ");
            push_str(&mut m, done);
            (200, MessageResponse { message: m })
        },
        Err(e) => {
            let mut m = concat3("failed to ", verb, " agent: ");
            push_str(&mut m, e.as_str());
            (404, MessageResponse { message: m })
        },
    }
}

/// A running agent as the list endpoint shows it.
#[derive(Debug, Clone)]
pub struct AgentResponse {
    pub agent_id: String,
    pub task_id: String,
    pub status: String,
}

/// Answer of the agent list endpoint.
#[derive(Debug, Clone)]
pub struct AgentsListResponse {
    pub agents: Vec<AgentResponse>,
    pub count: usize,
}

/// The agent list with its length.
pub fn agents_list_response(agents: Vec<AgentResponse>) -> (r: AgentsListResponse)
    ensures
        r.count == agents.len(),
        r.agents@ == agents@,
{
    let count = agents.len();
    AgentsListResponse { agents, count }
}

/// One output line as the output endpoint shows it.
#[derive(Debug, Clone)]
pub struct OutputLineResponse {
    pub line: String,
    pub timestamp: String,
}

/// Answer of the agent output endpoint.
#[derive(Debug, Clone)]
pub struct AgentOutputResponse {
    pub agent_id: String,
    pub lines: Vec<OutputLineResponse>,
    pub count: usize,
}

/// RFC 3339 text of a time in milliseconds since the Unix epoch, `None`
/// when out of range.
pub uninterp spec fn millis_rfc3339(ms: i64) -> Option<Seq<char>>;

/// RFC 3339 text of a time in milliseconds (`chrono::DateTime::<Utc>::
/// from_timestamp_millis` then `to_rfc3339`), named [`millis_rfc3339`].
#[verifier::external_body]
fn rfc3339_of_millis(ms: i64) -> (r: Option<String>)
    ensures
        match r {
            Some(s) => millis_rfc3339(ms) == Some(s@),
            None => millis_rfc3339(ms) is None,
        },
{
    chrono::DateTime::<chrono::Utc>::from_timestamp_millis(ms).map(|t| t.to_rfc3339())
}

/// The output of agent `agent_id`: each line with its time as RFC 3339 text
/// (empty when out of range), and the number of lines.
pub fn agent_output_response(agent_id: &str, lines: &Vec<OutputLine>) -> (r: AgentOutputResponse)
    ensures
        r.agent_id@ == agent_id@,
        r.count == lines.len(),
        r.lines.len() == lines.len(),
        forall|i: int|
            0 <= i < lines.len() ==> (#[trigger] r.lines@[i]).line@ == lines@[i].line@ && r.lines@[i].timestamp@
                == match millis_rfc3339(lines@[i].timestamp) {
                Some(t) => t,
                None => Seq::empty(),
            },
{
    let mut out: Vec<OutputLineResponse> = Vec::new();
    let mut i: usize = 0;
    while i < lines.len()
        invariant
            i <= lines.len(),
            out.len() == i,
            forall|j: int|
                0 <= j < i ==> (#[trigger] out@[j]).line@ == lines@[j].line@ && out@[j].timestamp@
                    == match millis_rfc3339(lines@[j].timestamp) {
                    Some(t) => t,
                    None => Seq::empty(),
                },
        decreases lines.len() - i,
    {
        let ts = match rfc3339_of_millis(lines[i].timestamp) {
            Some(t) => t,
            None => String::new(),
        };
        out.push(OutputLineResponse { line: lines[i].line.clone(), timestamp: ts });
        i = i + 1;
    }
    AgentOutputResponse { agent_id: string_from_literal(agent_id), lines: out, count: lines.len() }
}

/// Adapter a login runs: the requested one, else the default harness.
pub fn login_adapter_type(requested: Option<&str>, default_adapter: &str) -> (s: String)
    ensures
        s@ == match requested {
            Some(t) => t@,
            None => default_adapter@,
        },
{
    match requested {
        Some(t) => string_from_literal(t),
        None => string_from_literal(default_adapter),
    }
}

/// What a failed login reports: its error output when that is not blank,
/// else its standard output.
pub fn login_failure_detail(stderr: &str, stdout: &str) -> (s: String)
    ensures
        s@ == if trim(stderr@).len() > 0 {
            stderr@
        } else {
            stdout@
        },
{
    if trim_str(stderr).as_str().is_empty() {
        string_from_literal(stdout)
    } else {
        string_from_literal(stderr)
    }
}

} // verus!
