//! Stage definitions and the stages API: conversion between stored stages
//! and API rows, replacing, adding, removing and patching stages, and the
//! migration that gives hook-less stages their default hooks.

use vstd::prelude::*;

use crate::hooks::{HookConfig, HookDefinition};
use crate::text::{
    concat2, concat3, contains_str, has_text, push_str, str_eq, string_from_literal, trim,
    trim_str,
};

verus! {

/// A stage of a pipeline. Transition rules are kept as their JSON text.
#[derive(Debug)]
pub struct StageDefinition {
    pub name: String,
    pub label: Option<String>,
    pub instructions: Option<String>,
    pub instructions_template: Option<String>,
    pub requires_approval: bool,
    pub approvers: Vec<String>,
    pub timeout_seconds: Option<u64>,
    pub terminal: bool,
    pub hooks: Vec<HookDefinition>,
    pub transition_rules: Vec<String>,
    pub color: Option<String>,
    pub order: u32,
    pub wip_limit: Option<u32>,
}

/// A stage as the API shows it: `id` is the stage name, `label` its display
/// name.
#[derive(Debug)]
pub struct StageResponse {
    pub id: String,
    pub label: String,
    pub wip_limit: Option<u32>,
    pub requires_approval: bool,
    pub timeout_seconds: Option<u64>,
    pub terminal: bool,
    pub color: Option<String>,
    pub order: u32,
    pub hooks: Vec<HookDefinition>,
    pub transition_rules: Vec<String>,
    pub instructions: Option<String>,
    pub instructions_template: Option<String>,
    pub approvers: Vec<String>,
}

/// Partial update of a stage: only supplied fields change; for the
/// nullable fields `Some(None)` clears the value.
#[derive(Debug, Default)]
pub struct StagePatch {
    pub label: Option<String>,
    pub wip_limit: Option<Option<u32>>,
    pub requires_approval: Option<bool>,
    pub timeout_seconds: Option<Option<u64>>,
    pub terminal: Option<bool>,
    pub color: Option<Option<String>>,
    pub order: Option<u32>,
}

/// Body of the stages API: the stages and, optionally, the board columns
/// (each as its JSON text).
#[derive(Debug)]
pub struct StagesResponse {
    pub stages: Vec<StageResponse>,
    pub columns: Option<Vec<String>>,
}

/// Error body of the stages API.
#[derive(Debug, Clone)]
pub struct ErrorResponse {
    pub error: String,
}

/// A board's pipeline. Integrations and columns are kept as their JSON text.
#[derive(Debug)]
pub struct PipelineConfig {
    pub name: String,
    pub description: Option<String>,
    pub version: u32,
    pub stages: Vec<StageDefinition>,
    pub integrations: Vec<String>,
    pub columns: Vec<String>,
}

/// The view of an optional string.
pub open spec fn ov(o: Option<String>) -> Option<Seq<char>> {
    match o {
        Some(s) => Some(s@),
        None => None,
    }
}

/// The views of a vector of strings.
pub open spec fn sv(v: Seq<String>) -> Seq<Seq<char>> {
    v.map_values(|s: String| s@)
}

fn dup_string(s: &String) -> (r: String)
    ensures
        r@ == s@,
{
    s.clone()
}

fn dup_opt(o: &Option<String>) -> (r: Option<String>)
    ensures
        ov(r) == ov(*o),
{
    match o {
        Some(s) => Some(s.clone()),
        None => None,
    }
}

fn dup_strings(v: &Vec<String>) -> (r: Vec<String>)
    ensures
        sv(r@) == sv(v@),
{
    let mut r: Vec<String> = Vec::new();
    let mut i: usize = 0;
    while i < v.len()
        invariant
            i <= v.len(),
            sv(r@) == sv(v@.take(i as int)),
        decreases v.len() - i,
    {
        r.push(v[i].clone());
        i = i + 1;
        assert(sv(v@.take(i as int)) == sv(v@.take(i - 1)).push(v@[i - 1]@));
    }
    assert(v@.take(v.len() as int) == v@);
    r
}

/// A hook's configuration with its texts copied.
pub open spec fn same_config(a: HookConfig, b: HookConfig) -> bool {
    &&& ov(a.failure_policy) == ov(b.failure_policy)
    &&& a.retry_max_attempts == b.retry_max_attempts
    &&& a.retry_delay_ms == b.retry_delay_ms
    &&& ov(a.execution_mode) == ov(b.execution_mode)
    &&& ov(a.command) == ov(b.command)
    &&& ov(a.instruction) == ov(b.instruction)
    &&& a.timeout_seconds == b.timeout_seconds
    &&& ov(a.working_dir) == ov(b.working_dir)
}

/// Two hooks agree: same kind, trigger and configuration.
pub open spec fn same_hook(a: HookDefinition, b: HookDefinition) -> bool {
    a.kind == b.kind && a.on == b.on && same_config(a.config, b.config)
}

/// Two hook lists agree element by element.
pub open spec fn same_hooks(a: Seq<HookDefinition>, b: Seq<HookDefinition>) -> bool {
    a.len() == b.len() && forall|i: int| 0 <= i < a.len() ==> same_hook(#[trigger] a[i], b[i])
}

fn dup_hook(h: &HookDefinition) -> (r: HookDefinition)
    ensures
        same_hook(r, *h),
{
    HookDefinition {
        kind: h.kind,
        on: h.on,
        config: HookConfig {
            failure_policy: dup_opt(&h.config.failure_policy),
            retry_max_attempts: h.config.retry_max_attempts,
            retry_delay_ms: h.config.retry_delay_ms,
            execution_mode: dup_opt(&h.config.execution_mode),
            command: dup_opt(&h.config.command),
            instruction: dup_opt(&h.config.instruction),
            timeout_seconds: h.config.timeout_seconds,
            working_dir: dup_opt(&h.config.working_dir),
        },
    }
}

fn dup_hooks(v: &Vec<HookDefinition>) -> (r: Vec<HookDefinition>)
    ensures
        same_hooks(r@, v@),
{
    let mut r: Vec<HookDefinition> = Vec::new();
    let mut i: usize = 0;
    while i < v.len()
        invariant
            i <= v.len(),
            r.len() == i,
            forall|j: int| 0 <= j < i ==> same_hook(#[trigger] r@[j], v@[j]),
        decreases v.len() - i,
    {
        r.push(dup_hook(&v[i]));
        i = i + 1;
    }
    r
}

/// Display label of a stage: its label, else its name.
pub open spec fn stage_label(s: StageDefinition) -> Seq<char> {
    match s.label {
        Some(l) => l@,
        None => s.name@,
    }
}

/// `r` is the API row of stage `s`.
pub open spec fn is_response_of(r: StageResponse, s: StageDefinition) -> bool {
    &&& r.id@ == s.name@
    &&& r.label@ == stage_label(s)
    &&& r.wip_limit == s.wip_limit
    &&& r.requires_approval == s.requires_approval
    &&& r.timeout_seconds == s.timeout_seconds
    &&& r.terminal == s.terminal
    &&& ov(r.color) == ov(s.color)
    &&& r.order == s.order
    &&& same_hooks(r.hooks@, s.hooks@)
    &&& sv(r.transition_rules@) == sv(s.transition_rules@)
    &&& ov(r.instructions) == ov(s.instructions)
    &&& ov(r.instructions_template) == ov(s.instructions_template)
    &&& sv(r.approvers@) == sv(s.approvers@)
}

/// The API row of a stage.
pub fn stage_to_response(s: &StageDefinition) -> (r: StageResponse)
    ensures
        is_response_of(r, *s),
{
    StageResponse {
        id: dup_string(&s.name),
        label: match &s.label {
            Some(l) => l.clone(),
            None => s.name.clone(),
        },
        wip_limit: s.wip_limit,
        requires_approval: s.requires_approval,
        timeout_seconds: s.timeout_seconds,
        terminal: s.terminal,
        color: dup_opt(&s.color),
        order: s.order,
        hooks: dup_hooks(&s.hooks),
        transition_rules: dup_strings(&s.transition_rules),
        instructions: dup_opt(&s.instructions),
        instructions_template: dup_opt(&s.instructions_template),
        approvers: dup_strings(&s.approvers),
    }
}

/// Label stored for a display label given for stage `id`: none when blank
/// or equal to the id.
pub open spec fn stored_label(label: Seq<char>, id: Seq<char>) -> Option<Seq<char>> {
    if trim(label).len() == 0 || label == id {
        None
    } else {
        Some(label)
    }
}

/// `d` is the stage an API row `s` stands for: named by the trimmed id,
/// with the stored label, every other field carried over.
pub open spec fn is_stage_of(d: StageDefinition, s: StageResponse) -> bool {
    &&& d.name@ == trim(s.id@)
    &&& ov(d.label) == stored_label(s.label@, trim(s.id@))
    &&& d.instructions == s.instructions
    &&& d.instructions_template == s.instructions_template
    &&& d.requires_approval == s.requires_approval
    &&& d.approvers == s.approvers
    &&& d.timeout_seconds == s.timeout_seconds
    &&& d.terminal == s.terminal
    &&& d.hooks == s.hooks
    &&& d.transition_rules == s.transition_rules
    &&& d.color == s.color
    &&& d.order == s.order
    &&& d.wip_limit == s.wip_limit
}

/// The stage an API row stands for; an error when the id is blank.
pub fn stage_from_response(s: StageResponse) -> (r: Result<StageDefinition, String>)
    ensures
        trim(s.id@).len() == 0 <==> r is Err,
        r is Err ==> r->Err_0@ == "stage id must be non-empty"@,
        r is Ok ==> is_stage_of(r->Ok_0, s),
{
    let id = trim_str(s.id.as_str());
    if id.as_str().is_empty() {
        return Err(string_from_literal("stage id must be non-empty"));
    }
    let label = if trim_str(s.label.as_str()).as_str().is_empty() || str_eq(
        s.label.as_str(),
        id.as_str(),
    ) {
        None
    } else {
        Some(s.label)
    };
    Ok(
        StageDefinition {
            name: id,
            label,
            instructions: s.instructions,
            instructions_template: s.instructions_template,
            requires_approval: s.requires_approval,
            approvers: s.approvers,
            timeout_seconds: s.timeout_seconds,
            terminal: s.terminal,
            hooks: s.hooks,
            transition_rules: s.transition_rules,
            color: s.color,
            order: s.order,
            wip_limit: s.wip_limit,
        },
    )
}


/// Two API rows carry the same data.
pub open spec fn same_row(a: StageResponse, b: StageResponse) -> bool {
    &&& a.id@ == b.id@
    &&& a.label@ == b.label@
    &&& a.wip_limit == b.wip_limit
    &&& a.requires_approval == b.requires_approval
    &&& a.timeout_seconds == b.timeout_seconds
    &&& a.terminal == b.terminal
    &&& ov(a.color) == ov(b.color)
    &&& a.order == b.order
    &&& same_hooks(a.hooks@, b.hooks@)
    &&& sv(a.transition_rules@) == sv(b.transition_rules@)
    &&& ov(a.instructions) == ov(b.instructions)
    &&& ov(a.instructions_template) == ov(b.instructions_template)
    &&& sv(a.approvers@) == sv(b.approvers@)
}

/// A row with a trimmed, non-blank id and a non-blank label survives the
/// round trip: the stage it stands for shows as the same row.
pub proof fn law_stage_round_trip(s: StageResponse, d: StageDefinition, r: StageResponse)
    requires
        trim(s.id@).len() > 0,
        s.id@ == trim(s.id@),
        trim(s.label@).len() > 0,
        is_stage_of(d, s),
        is_response_of(r, d),
    ensures
        same_row(r, s),
{
}

/// Names of `stages`, in order.
pub open spec fn stage_names(stages: Seq<StageDefinition>) -> Seq<Seq<char>> {
    stages.map_values(|d: StageDefinition| d.name@)
}

/// No two stages share a name.
pub open spec fn unique_names(stages: Seq<StageDefinition>) -> bool {
    forall|i: int, j: int|
        0 <= i < j < stages.len() ==> #[trigger] stages[i].name@ != #[trigger] stages[j].name@
}

/// `ids[i]` repeats an earlier id.
pub open spec fn repeats_earlier(ids: Seq<Seq<char>>, i: int) -> bool {
    exists|j: int| 0 <= j < i && ids[j] == ids[i]
}

/// Index of the first id, from `i` on, that repeats an earlier one.
pub open spec fn first_repeat_from(ids: Seq<Seq<char>>, i: int) -> Option<int>
    decreases ids.len() - i,
{
    if i < 0 || i >= ids.len() {
        None
    } else if repeats_earlier(ids, i) {
        Some(i)
    } else {
        first_repeat_from(ids, i + 1)
    }
}

/// Ids of API rows, in order.
pub open spec fn row_ids(rows: Seq<StageResponse>) -> Seq<Seq<char>> {
    rows.map_values(|r: StageResponse| r.id@)
}

/// Some row has an id that is blank once trimmed.
pub open spec fn has_blank_id(rows: Seq<StageResponse>) -> bool {
    exists|i: int| 0 <= i < rows.len() && trim(#[trigger] rows[i].id@).len() == 0
}

/// `stages` without the stages named `id`.
pub open spec fn without_stage(stages: Seq<StageDefinition>, id: Seq<char>) -> Seq<StageDefinition>
    decreases stages.len(),
{
    if stages.len() == 0 {
        stages
    } else {
        let rest = without_stage(stages.drop_last(), id);
        if stages.last().name@ != id {
            rest.push(stages.last())
        } else {
            rest
        }
    }
}

/// Index of the first stage named `id`, from `i` on; `-1` when none.
pub open spec fn stage_pos_from(stages: Seq<StageDefinition>, id: Seq<char>, i: int) -> int
    decreases stages.len() - i,
{
    if i < 0 || i >= stages.len() {
        -1
    } else if stages[i].name@ == id {
        i
    } else {
        stage_pos_from(stages, id, i + 1)
    }
}

/// `new` is stage `old` after `p`, applied through the stage's id `id`:
/// each supplied field is set (a blank label, or one equal to the id,
/// clears it), everything else is kept.
pub open spec fn is_patched(new: StageDefinition, old: StageDefinition, p: StagePatch, id: Seq<char>) -> bool {
    &&& new.name == old.name
    &&& match p.label {
        Some(l) => ov(new.label) == stored_label(l@, id),
        None => new.label == old.label,
    }
    &&& new.wip_limit == match p.wip_limit {
        Some(w) => w,
        None => old.wip_limit,
    }
    &&& new.requires_approval == match p.requires_approval {
        Some(b) => b,
        None => old.requires_approval,
    }
    &&& new.timeout_seconds == match p.timeout_seconds {
        Some(t) => t,
        None => old.timeout_seconds,
    }
    &&& new.terminal == match p.terminal {
        Some(b) => b,
        None => old.terminal,
    }
    &&& new.color == match p.color {
        Some(c) => c,
        None => old.color,
    }
    &&& new.order == match p.order {
        Some(o) => o,
        None => old.order,
    }
    &&& new.instructions == old.instructions
    &&& new.instructions_template == old.instructions_template
    &&& new.approvers == old.approvers
    &&& new.hooks == old.hooks
    &&& new.transition_rules == old.transition_rules
}

proof fn lemma_without_empty(stages: Seq<StageDefinition>, id: Seq<char>)
    ensures
        (without_stage(stages, id).len() == 0) == (forall|i: int|
            0 <= i < stages.len() ==> #[trigger] stages[i].name@ == id),
    decreases stages.len(),
{
    if stages.len() > 0 {
        let rest = stages.drop_last();
        lemma_without_empty(rest, id);
        if forall|i: int| 0 <= i < stages.len() ==> #[trigger] stages[i].name@ == id {
            assert forall|i: int| 0 <= i < rest.len() implies #[trigger] rest[i].name@ == id by {
                assert(rest[i] == stages[i]);
            }
        }
        if without_stage(stages, id).len() == 0 {
            assert forall|i: int| 0 <= i < stages.len() implies #[trigger] stages[i].name@ == id by {
                if i < rest.len() {
                    assert(rest[i] == stages[i]);
                    assert(rest[i].name@ == id);
                }
            }
        }
    }
}

/// Whether every stage is named `id`, so that removing `id` leaves none.
fn all_named(stages: &Vec<StageDefinition>, id: &str) -> (b: bool)
    ensures
        b == (without_stage(stages@, id@).len() == 0),
{
    proof {
        lemma_without_empty(stages@, id@);
    }
    let mut i: usize = 0;
    while i < stages.len()
        invariant
            i <= stages.len(),
            forall|j: int| 0 <= j < i ==> #[trigger] stages@[j].name@ == id@,
        decreases stages.len() - i,
    {
        if !str_eq(stages[i].name.as_str(), id) {
            assert(stages@[i as int].name@ != id@);
            proof {
                lemma_without_empty(stages@, id@);
            }
            return false;
        }
        i = i + 1;
    }
    true
}

/// Adding a stage and then removing it by name gives back the stages
/// before the addition.
pub proof fn law_add_then_remove_restores(stages: Seq<StageDefinition>, added: StageDefinition)
    requires
        forall|i: int| 0 <= i < stages.len() ==> #[trigger] stages[i].name@ != added.name@,
    ensures
        without_stage(stages.push(added), added.name@) == stages,
    decreases stages.len(),
{
    assert(stages.push(added).drop_last() == stages);
    lemma_without_absent(stages, added.name@);
}

proof fn lemma_without_absent(stages: Seq<StageDefinition>, id: Seq<char>)
    requires
        forall|i: int| 0 <= i < stages.len() ==> #[trigger] stages[i].name@ != id,
    ensures
        without_stage(stages, id) == stages,
    decreases stages.len(),
{
    if stages.len() > 0 {
        lemma_without_absent(stages.drop_last(), id);
        assert(stages.drop_last().push(stages.last()) == stages);
    }
}

proof fn lemma_without_subset(stages: Seq<StageDefinition>, id: Seq<char>)
    ensures
        forall|k: int|
            0 <= k < without_stage(stages, id).len() ==> exists|j: int|
                0 <= j < stages.len() && #[trigger] without_stage(stages, id)[k] == stages[j],
        without_stage(stages, id).len() <= stages.len(),
    decreases stages.len(),
{
    if stages.len() > 0 {
        lemma_without_subset(stages.drop_last(), id);
        let rest = without_stage(stages.drop_last(), id);
        let w = without_stage(stages, id);
        assert forall|k: int| 0 <= k < w.len() implies exists|j: int|
            0 <= j < stages.len() && #[trigger] w[k] == stages[j] by {
            if k < rest.len() {
                let j = choose|j: int| 0 <= j < stages.drop_last().len() && rest[k]
                    == stages.drop_last()[j];
                assert(w[k] == stages[j]);
            } else {
                assert(w[k] == stages[stages.len() - 1]);
            }
        }
    }
}

/// Pipeline stages held by a board, as the stages API edits them.
#[derive(Debug)]
pub struct PipelineConfigStore {
    pub config: PipelineConfig,
}

impl PipelineConfigStore {
    /// A store holding `cfg`.
    pub fn from_pipeline_config(cfg: PipelineConfig) -> (s: Self)
        ensures
            s.config == cfg,
    {
        PipelineConfigStore { config: cfg }
    }

    /// A store named `default` (version 1) holding the stages the rows
    /// stand for; every row needs a non-blank id.
    pub fn in_memory_with(stages: Vec<StageResponse>) -> (s: Self)
        requires
            !has_blank_id(stages@),
        ensures
            s.config.name@ == "default"@,
            s.config.version == 1,
            s.config.stages.len() == stages.len(),
            forall|i: int| 0 <= i < stages.len() ==> is_stage_of(#[trigger] s.config.stages@[i], stages@[i]),
    {
        let defs = convert_rows(stages);
        PipelineConfigStore {
            config: PipelineConfig {
                name: string_from_literal("default"),
                description: None,
                version: 1,
                stages: defs,
                integrations: Vec::new(),
                columns: Vec::new(),
            },
        }
    }

    /// API rows of all stages, in order.
    pub fn get_stages(&self) -> (r: Vec<StageResponse>)
        ensures
            r.len() == self.config.stages.len(),
            forall|i: int| 0 <= i < r.len() ==> is_response_of(#[trigger] r@[i], self.config.stages@[i]),
    {
        let mut r: Vec<StageResponse> = Vec::new();
        let mut i: usize = 0;
        while i < self.config.stages.len()
            invariant
                i <= self.config.stages.len(),
                r.len() == i,
                forall|j: int| 0 <= j < i ==> is_response_of(#[trigger] r@[j], self.config.stages@[j]),
            decreases self.config.stages.len() - i,
        {
            r.push(stage_to_response(&self.config.stages[i]));
            i = i + 1;
        }
        r
    }

    /// All stages with the board columns.
    pub fn get_stages_response(&self) -> (r: StagesResponse)
        ensures
            r.stages.len() == self.config.stages.len(),
            forall|i: int|
                0 <= i < r.stages.len() ==> is_response_of(#[trigger] r.stages@[i], self.config.stages@[i]),
            r.columns is Some && sv(r.columns->0@) == sv(self.config.columns@),
    {
        StagesResponse { stages: self.get_stages(), columns: Some(dup_strings(&self.config.columns)) }
    }

    /// Display name of the pipeline.
    pub fn pipeline_display_name(&self) -> (n: String)
        ensures
            n@ == self.config.name@,
    {
        self.config.name.clone()
    }

    /// Set the display name of the pipeline.
    pub fn set_display_name(&mut self, name: String)
        ensures
            final(self).config.name == name,
            final(self).config.stages == old(self).config.stages,
    {
        self.config.name = name;
    }

    /// Replace all stages (and the columns, when given). Refused, leaving
    /// the store as it was, when there are no stages, when an id repeats an
    /// earlier one, or when an id is blank.
    pub fn set_stages_response(&mut self, body: StagesResponse) -> (r: Result<(), String>)
        ensures
            body.stages.len() == 0 ==> r is Err && r->Err_0@ == "pipeline must have at least one stage"@,
            body.stages.len() > 0 && first_repeat_from(row_ids(body.stages@), 0) is Some ==> r is Err
                && r->Err_0@ == "duplicate stage id: "@ + row_ids(body.stages@)[first_repeat_from(
                row_ids(body.stages@),
                0,
            )->0],
            body.stages.len() > 0 && first_repeat_from(row_ids(body.stages@), 0) is None
                && has_blank_id(body.stages@) ==> r is Err && r->Err_0@
                == "stage id must be non-empty"@,
            r is Err ==> *final(self) == *old(self),
            r is Ok <==> (body.stages.len() > 0 && first_repeat_from(row_ids(body.stages@), 0) is None
                && !has_blank_id(body.stages@)),
            r is Ok ==> {
                &&& final(self).config.stages.len() == body.stages.len()
                &&& forall|i: int|
                    0 <= i < body.stages.len() ==> is_stage_of(
                        #[trigger] final(self).config.stages@[i],
                        body.stages@[i],
                    )
                &&& final(self).config.columns == match body.columns {
                    Some(c) => c,
                    None => old(self).config.columns,
                }
                &&& final(self).config.name == old(self).config.name
            },
    {
        if body.stages.len() == 0 {
            return Err(string_from_literal("pipeline must have at least one stage"));
        }
        let ghost ids = row_ids(body.stages@);
        let mut seen: Vec<String> = Vec::new();
        let mut i: usize = 0;
        while i < body.stages.len()
            invariant
                i <= body.stages.len(),
                ids == row_ids(body.stages@),
                sv(seen@) == ids.take(i as int),
                first_repeat_from(ids, 0) == first_repeat_from(ids, i as int),
            decreases body.stages.len() - i,
        {
            let id = &body.stages[i].id;
            assert(ids[i as int] == body.stages@[i as int].id@);
            assert(ids.len() == body.stages.len());
            assert(sv(seen@).len() == seen@.len());
            assert(seen@.len() == i);
            if contains_str(&seen, id.as_str()) {
                proof {
                    let k = choose|k: int| 0 <= k < seen@.len() && #[trigger] seen@[k]@ == id@;
                    assert(sv(seen@)[k] == seen@[k]@);
                    assert(ids.take(i as int)[k] == ids[k]);
                    assert(ids[k] == ids[i as int]);
                    assert(repeats_earlier(ids, i as int));
                }
                let msg = concat2("duplicate stage id: ", id.as_str());
                return Err(msg);
            }
            proof {
                assert forall|j: int| 0 <= j < i implies ids[j] != ids[i as int] by {
                    assert(ids.take(i as int)[j] == ids[j]);
                    assert(sv(seen@)[j] == seen@[j]@);
                }
                assert(!repeats_earlier(ids, i as int));
            }
            seen.push(id.clone());
            assert(sv(seen@) == ids.take(i + 1));
            i = i + 1;
        }
        assert(first_repeat_from(ids, body.stages.len() as int) is None);
        let mut k: usize = 0;
        while k < body.stages.len()
            invariant
                k <= body.stages.len(),
                first_repeat_from(row_ids(body.stages@), 0) is None,
                forall|j: int| 0 <= j < k ==> trim(#[trigger] body.stages@[j].id@).len() > 0,
            decreases body.stages.len() - k,
        {
            let t = trim_str(body.stages[k].id.as_str());
            if t.as_str().is_empty() {
                return Err(string_from_literal("stage id must be non-empty"));
            }
            k = k + 1;
        }
        let defs = convert_rows(body.stages);
        self.config.stages = defs;
        match body.columns {
            Some(c) => {
                self.config.columns = c;
            },
            None => {},
        }
        Ok(())
    }

    /// Add a stage at the end. Refused, leaving the store as it was, when
    /// its id is blank or a stage of that name exists. Keeps stage names
    /// unique.
    pub fn add_stage(&mut self, stage: StageResponse) -> (r: Result<(), String>)
        ensures
            trim(stage.id@).len() == 0 ==> r is Err && r->Err_0@ == "stage id must be non-empty"@,
            trim(stage.id@).len() > 0 && stage_names(old(self).config.stages@).contains(
                trim(stage.id@),
            ) ==> r is Err && r->Err_0@ == "stage with id '"@ + trim(stage.id@) + "' already exists"@,
            r is Err ==> *final(self) == *old(self),
            r is Ok <==> (trim(stage.id@).len() > 0 && !stage_names(
                old(self).config.stages@,
            ).contains(trim(stage.id@))),
            r is Ok ==> final(self).config.stages.len() == old(self).config.stages.len() + 1
                && final(self).config.stages@.drop_last() == old(self).config.stages@
                && is_stage_of(final(self).config.stages@.last(), stage),
            r is Ok ==> final(self).config.name == old(self).config.name
                && final(self).config.columns == old(self).config.columns,
            unique_names(old(self).config.stages@) ==> unique_names(final(self).config.stages@),
    {
        let def = match stage_from_response(stage) {
            Ok(d) => d,
            Err(e) => {
                return Err(e);
            },
        };
        let mut i: usize = 0;
        while i < self.config.stages.len()
            invariant
                i <= self.config.stages.len(),
                def.name@ == trim(stage.id@),
                trim(stage.id@).len() > 0,
                is_stage_of(def, stage),
                self.config.stages@ == old(self).config.stages@,
                *self == *old(self),
                forall|j: int| 0 <= j < i ==> #[trigger] self.config.stages@[j].name@ != def.name@,
            decreases self.config.stages.len() - i,
        {
            if str_eq(self.config.stages[i].name.as_str(), def.name.as_str()) {
                proof {
                    assert(stage_names(self.config.stages@)[i as int] == def.name@);
                }
                let mut msg = concat2("stage with id '", def.name.as_str());
                push_str(&mut msg, "' already exists");
                return Err(msg);
            }
            i = i + 1;
        }
        proof {
            assert forall|j: int| 0 <= j < stage_names(self.config.stages@).len() implies stage_names(
                self.config.stages@,
            )[j] != def.name@ by {
                assert(self.config.stages@[j].name@ != def.name@);
            }
        }
        let ghost before = self.config.stages@;
        self.config.stages.push(def);
        assert(self.config.stages@.drop_last() == before);
        Ok(())
    }

    /// Remove the stages named `id`. Refused, leaving the store as it was,
    /// when there is none, and with `cannot remove last stage` when no
    /// stage would remain.
    pub fn remove_stage(&mut self, id: &str) -> (r: Result<(), String>)
        ensures
            !stage_names(old(self).config.stages@).contains(id@) ==> r is Err && r->Err_0@
                == "stage with id '"@ + id@ + "' not found"@ && *final(self) == *old(self),
            stage_names(old(self).config.stages@).contains(id@) && without_stage(
                old(self).config.stages@,
                id@,
            ).len() == 0 ==> r is Err && r->Err_0@ == "cannot remove last stage"@ && *final(self)
                == *old(self),
            stage_names(old(self).config.stages@).contains(id@) && without_stage(
                old(self).config.stages@,
                id@,
            ).len() > 0 ==> r is Ok && final(self).config.stages@ == without_stage(
                old(self).config.stages@,
                id@,
            ) && final(self).config.name == old(self).config.name && final(self).config.columns
                == old(self).config.columns,
            unique_names(old(self).config.stages@) ==> unique_names(final(self).config.stages@),
    {
        let ghost orig = self.config.stages@;
        if !has_named(&self.config.stages, id) {
            let mut msg = concat2("stage with id '", id);
            push_str(&mut msg, "' not found");
            return Err(msg);
        }
        if all_named(&self.config.stages, id) {
            return Err(string_from_literal("cannot remove last stage"));
        }
        let mut src: Vec<StageDefinition> = Vec::new();
        std::mem::swap(&mut src, &mut self.config.stages);
        let kept = drop_named(src, id);
        proof {
            if unique_names(orig) {
                lemma_without_unique(orig, id@);
            }
        }
        self.config.stages = kept;
        Ok(())
    }

    /// Apply `patch` to the first stage named `id` and answer its API row.
    /// Refused, leaving the store as it was, when there is no such stage.
    /// Other stages are unchanged.
    pub fn patch_stage(&mut self, id: &str, patch: StagePatch) -> (r: Result<StageResponse, String>)
        ensures
            stage_pos_from(old(self).config.stages@, id@, 0) < 0 ==> r is Err && r->Err_0@
                == "stage with id '"@ + id@ + "' not found"@ && *final(self) == *old(self),
            stage_pos_from(old(self).config.stages@, id@, 0) >= 0 ==> {
                let k = stage_pos_from(old(self).config.stages@, id@, 0);
                &&& 0 <= k < old(self).config.stages.len()
                &&& final(self).config.stages.len() == old(self).config.stages.len()
                &&& forall|j: int|
                    0 <= j < old(self).config.stages.len() && j != k ==> #[trigger] final(self).config.stages@[j] == old(self).config.stages@[j]
                &&& is_patched(final(self).config.stages@[k], old(self).config.stages@[k], patch, id@)
                &&& r is Ok && is_response_of(r->Ok_0, final(self).config.stages@[k])
                &&& final(self).config.name == old(self).config.name
            },
            unique_names(old(self).config.stages@) ==> unique_names(final(self).config.stages@),
    {
        let ghost orig = self.config.stages@;
        let i = match find_stage(&self.config.stages, id) {
            Some(i) => i,
            None => {
                let mut msg = concat2("stage with id '", id);
                push_str(&mut msg, "' not found");
                return Err(msg);
            },
        };
        let mut st = self.config.stages.remove(i);
        let ghost old_st = st;
        match patch.label {
            Some(label) => {
                let blank = trim_str(label.as_str()).as_str().is_empty();
                if blank || str_eq(label.as_str(), id) {
                    st.label = None;
                } else {
                    st.label = Some(label);
                }
            },
            None => {},
        }
        match patch.wip_limit {
            Some(w) => {
                st.wip_limit = w;
            },
            None => {},
        }
        match patch.requires_approval {
            Some(b) => {
                st.requires_approval = b;
            },
            None => {},
        }
        match patch.timeout_seconds {
            Some(t) => {
                st.timeout_seconds = t;
            },
            None => {},
        }
        match patch.terminal {
            Some(b) => {
                st.terminal = b;
            },
            None => {},
        }
        match patch.color {
            Some(c) => {
                st.color = c;
            },
            None => {},
        }
        match patch.order {
            Some(o) => {
                st.order = o;
            },
            None => {},
        }
        let resp = stage_to_response(&st);
        self.config.stages.insert(i, st);
        proof {
            assert(self.config.stages@ == orig.update(i as int, st));
            if unique_names(orig) {
                assert forall|a: int, b: int|
                    0 <= a < b < self.config.stages@.len() implies #[trigger] self.config.stages@[a].name@
                    != #[trigger] self.config.stages@[b].name@ by {
                    assert(orig[a].name@ != orig[b].name@);
                }
            }
        }
        Ok(resp)
    }
}

proof fn lemma_without_unique(stages: Seq<StageDefinition>, id: Seq<char>)
    requires
        unique_names(stages),
    ensures
        unique_names(without_stage(stages, id)),
    decreases stages.len(),
{
    if stages.len() > 0 {
        let init = stages.drop_last();
        assert(unique_names(init)) by {
            assert forall|a: int, b: int| 0 <= a < b < init.len() implies #[trigger] init[a].name@
                != #[trigger] init[b].name@ by {
                assert(stages[a] == init[a] && stages[b] == init[b]);
            }
        }
        lemma_without_unique(init, id);
        lemma_without_subset(init, id);
        let rest = without_stage(init, id);
        let w = without_stage(stages, id);
        if stages.last().name@ != id {
            assert forall|a: int, b: int| 0 <= a < b < w.len() implies #[trigger] w[a].name@
                != #[trigger] w[b].name@ by {
                if b == w.len() - 1 {
                    let j = choose|j: int| 0 <= j < init.len() && #[trigger] rest[a] == init[j];
                    assert(stages[j] == init[j]);
                    assert(stages[stages.len() - 1] == stages.last());
                }
            }
        }
    }
}

fn has_named(stages: &Vec<StageDefinition>, id: &str) -> (b: bool)
    ensures
        b == stage_names(stages@).contains(id@),
{
    let mut i: usize = 0;
    while i < stages.len()
        invariant
            i <= stages.len(),
            forall|j: int| 0 <= j < i ==> #[trigger] stages@[j].name@ != id@,
        decreases stages.len() - i,
    {
        if str_eq(stages[i].name.as_str(), id) {
            assert(stage_names(stages@)[i as int] == id@);
            return true;
        }
        i = i + 1;
    }
    assert forall|j: int| 0 <= j < stage_names(stages@).len() implies stage_names(stages@)[j]
        != id@ by {
        assert(stage_names(stages@)[j] == stages@[j].name@);
    }
    false
}

fn drop_named(src: Vec<StageDefinition>, id: &str) -> (kept: Vec<StageDefinition>)
    ensures
        kept@ == without_stage(src@, id@),
{
    let ghost orig = src@;
    let mut src = src;
    let total = src.len();
    assert(orig.len() == total);
    let mut kept: Vec<StageDefinition> = Vec::new();
    let mut n: usize = 0;
    while src.len() > 0
        invariant
            n + src.len() == orig.len(),
            orig.len() <= usize::MAX,
            src@ == orig.skip(n as int),
            kept@ == without_stage(orig.take(n as int), id@),
        decreases src.len(),
    {
        let st = src.remove(0);
        proof {
            assert(orig.take(n + 1).drop_last() == orig.take(n as int));
            assert(orig.take(n + 1).last() == st);
            assert(orig.skip(n + 1) == orig.skip(n as int).drop_first());
        }
        if !str_eq(st.name.as_str(), id) {
            kept.push(st);
        }
        n = n + 1;
    }
    assert(orig.take(orig.len() as int) == orig);
    kept
}

fn convert_rows(rows: Vec<StageResponse>) -> (defs: Vec<StageDefinition>)
    requires
        !has_blank_id(rows@),
    ensures
        defs.len() == rows.len(),
        forall|i: int| 0 <= i < rows.len() ==> is_stage_of(#[trigger] defs@[i], rows@[i]),
{
    let ghost orig = rows@;
    let mut src = rows;
    let mut defs: Vec<StageDefinition> = Vec::new();
    let mut n: usize = 0;
    while src.len() > 0
        invariant
            n + src.len() == orig.len(),
            orig.len() <= usize::MAX,
            src@ == orig.skip(n as int),
            defs.len() == n,
            !has_blank_id(orig),
            forall|i: int| 0 <= i < n ==> is_stage_of(#[trigger] defs@[i], orig[i]),
        decreases src.len(),
    {
        let row = src.remove(0);
        proof {
            assert(row == orig[n as int]);
            assert(orig.skip(n + 1) == orig.skip(n as int).drop_first());
            assert(trim(orig[n as int].id@).len() > 0);
        }
        match stage_from_response(row) {
            Ok(d) => {
                defs.push(d);
            },
            Err(_) => {},
        }
        n = n + 1;
    }
    defs
}

/// Give each stage without hooks the hooks of the same-named stage of
/// `defaults`, when that one has any; `true` when some stage changed.
pub fn migrate_default_hooks(cfg: &mut PipelineConfig, defaults: &PipelineConfig) -> (changed: bool)
    ensures
        final(cfg).stages.len() == old(cfg).stages.len(),
        final(cfg).name == old(cfg).name,
        forall|i: int|
            0 <= i < old(cfg).stages.len() ==> {
                let o = #[trigger] old(cfg).stages@[i];
                let n = final(cfg).stages@[i];
                let k = stage_pos_from(defaults.stages@, o.name@, 0);
                &&& n.name == o.name
                &&& n.label == o.label
                &&& n.order == o.order
                &&& if o.hooks.len() == 0 && 0 <= k && defaults.stages@[k].hooks.len() > 0 {
                    same_hooks(n.hooks@, defaults.stages@[k].hooks@)
                } else {
                    n.hooks == o.hooks
                }
            },
        changed == exists|i: int|
            0 <= i < old(cfg).stages.len() && (#[trigger] old(cfg).stages@[i]).hooks.len() == 0
                && 0 <= stage_pos_from(defaults.stages@, old(cfg).stages@[i].name@, 0) && defaults.stages@[stage_pos_from(
                defaults.stages@,
                old(cfg).stages@[i].name@,
                0,
            )].hooks.len() > 0,
{
    let ghost orig = cfg.stages@;
    let mut changed = false;
    let mut i: usize = 0;
    while i < cfg.stages.len()
        invariant
            i <= cfg.stages.len(),
            cfg.stages.len() == orig.len(),
            cfg.name == old(cfg).name,
            orig == old(cfg).stages@,
            forall|j: int| i <= j < orig.len() ==> #[trigger] cfg.stages@[j] == orig[j],
            forall|j: int|
                0 <= j < i ==> {
                    let o = #[trigger] orig[j];
                    let n = cfg.stages@[j];
                    let k = stage_pos_from(defaults.stages@, o.name@, 0);
                    &&& n.name == o.name
                    &&& n.label == o.label
                    &&& n.order == o.order
                    &&& if o.hooks.len() == 0 && 0 <= k && defaults.stages@[k].hooks.len() > 0 {
                        same_hooks(n.hooks@, defaults.stages@[k].hooks@)
                    } else {
                        n.hooks == o.hooks
                    }
                },
            changed == exists|j: int|
                0 <= j < i && (#[trigger] orig[j]).hooks.len() == 0 && 0 <= stage_pos_from(
                    defaults.stages@,
                    orig[j].name@,
                    0,
                ) && defaults.stages@[stage_pos_from(defaults.stages@, orig[j].name@, 0)].hooks.len()
                    > 0,
        decreases cfg.stages.len() - i,
    {
        if cfg.stages[i].hooks.len() == 0 {
            let k = find_stage(&defaults.stages, cfg.stages[i].name.as_str());
            match k {
                Some(k) => {
                    if defaults.stages[k].hooks.len() > 0 {
                        let hooks = dup_hooks(&defaults.stages[k].hooks);
                        let mut st = cfg.stages.remove(i);
                        st.hooks = hooks;
                        cfg.stages.insert(i, st);
                        changed = true;
                    }
                },
                None => {},
            }
        }
        i = i + 1;
    }
    changed
}

fn find_stage(stages: &Vec<StageDefinition>, name: &str) -> (r: Option<usize>)
    ensures
        match r {
            Some(k) => k == stage_pos_from(stages@, name@, 0) && k < stages.len(),
            None => stage_pos_from(stages@, name@, 0) < 0,
        },
{
    let mut i: usize = 0;
    while i < stages.len()
        invariant
            i <= stages.len(),
            stage_pos_from(stages@, name@, 0) == stage_pos_from(stages@, name@, i as int),
        decreases stages.len() - i,
    {
        if str_eq(stages[i].name.as_str(), name) {
            return Some(i);
        }
        i = i + 1;
    }
    None
}

/// Whether leaving stage `name` needs approval: the flag of the first stage
/// with that name, `false` when the pipeline has none.
pub open spec fn leaving_needs_approval(stages: Seq<StageDefinition>, name: Seq<char>) -> bool {
    let k = stage_pos_from(stages, name, 0);
    if k < 0 {
        false
    } else {
        stages[k].requires_approval
    }
}

/// Whether a move out of stage `name` goes through approval.
pub fn stage_requires_approval(stages: &Vec<StageDefinition>, name: &str) -> (b: bool)
    ensures
        b == leaving_needs_approval(stages@, name@),
{
    match find_stage(stages, name) {
        Some(k) => stages[k].requires_approval,
        None => false,
    }
}

} // verus!
