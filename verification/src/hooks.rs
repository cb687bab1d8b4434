//! Hook policies: which hooks run at a stage boundary, how their failures
//! are handled, and how a hook's raw outcome becomes a [`HookResult`].
//!
//! Running a hook (a shell command, a sub-agent) is the application's
//! work; this module decides what to run and what the outcome means.

use vstd::prelude::*;

use crate::integrations::json::{get_str, get_u64, str_member, u64_member, JsonValue};
use crate::text::{
    concat2, concat3, decimal, i64_to_string, push_str, signed_decimal, str_eq, string_from_literal,
    trim, trim_str, u64_to_string,
};

verus! {

/// Kind of a pipeline hook.
#[derive(Debug, Clone, Copy, PartialEq, Eq, Structural)]
pub enum HookKind {
    Shell,
    StartDevEnvironment,
    TeardownDevEnvironment,
    AgentDispatch,
    Webhook,
}

/// When a hook fires.
#[derive(Debug, Clone, Copy, PartialEq, Eq, Structural)]
pub enum HookTrigger {
    Enter,
    Exit,
    OnStall,
}

/// The configuration fields a hook reads. A field is `None` when absent
/// or not of the expected JSON type.
#[derive(Debug, Clone, PartialEq, Eq)]
pub struct HookConfig {
    pub failure_policy: Option<String>,
    pub retry_max_attempts: Option<u64>,
    pub retry_delay_ms: Option<u64>,
    pub execution_mode: Option<String>,
    pub command: Option<String>,
    pub instruction: Option<String>,
    pub timeout_seconds: Option<u64>,
    pub working_dir: Option<String>,
}

impl HookConfig {
    /// The fields a hook reads from its JSON configuration: strings for
    /// `failure_policy`, `execution_mode`, `command`, `instruction` and
    /// `working_dir`, unsigned integers for `retry_max_attempts`,
    /// `retry_delay_ms` and `timeout_seconds`; a field of another type
    /// counts as absent.
    pub fn from_json(config: &JsonValue) -> (c: Self)
        ensures
            field(c.failure_policy) == str_member(*config, "failure_policy"@),
            c.retry_max_attempts == u64_member(*config, "retry_max_attempts"@),
            c.retry_delay_ms == u64_member(*config, "retry_delay_ms"@),
            field(c.execution_mode) == str_member(*config, "execution_mode"@),
            field(c.command) == str_member(*config, "command"@),
            field(c.instruction) == str_member(*config, "instruction"@),
            c.timeout_seconds == u64_member(*config, "timeout_seconds"@),
            field(c.working_dir) == str_member(*config, "working_dir"@),
    {
        HookConfig {
            failure_policy: get_str(config, "failure_policy"),
            retry_max_attempts: get_u64(config, "retry_max_attempts"),
            retry_delay_ms: get_u64(config, "retry_delay_ms"),
            execution_mode: get_str(config, "execution_mode"),
            command: get_str(config, "command"),
            instruction: get_str(config, "instruction"),
            timeout_seconds: get_u64(config, "timeout_seconds"),
            working_dir: get_str(config, "working_dir"),
        }
    }
}

/// A hook attached to a stage.
#[derive(Debug, Clone, PartialEq, Eq)]
pub struct HookDefinition {
    pub kind: HookKind,
    pub on: HookTrigger,
    pub config: HookConfig,
}

/// Outcome of one hook execution.
#[derive(Debug, Clone, PartialEq, Eq)]
pub enum HookResult {
    Success { output: Option<String> },
    Failed { error: String, retryable: bool },
    Skipped { reason: String },
}

/// What to do when a hook fails.
#[derive(Debug, Clone, Copy, PartialEq, Eq, Structural)]
pub enum FailurePolicy {
    /// Stop and fail the whole transition.
    Abort,
    /// Log the failure and go on.
    Continue,
    /// Retry up to `max_attempts` times, `delay_ms` apart.
    Retry { max_attempts: u32, delay_ms: u64 },
}

/// Whether the hooks of a trigger run one by one or all at once.
#[derive(Debug, Clone, Copy, PartialEq, Eq, Structural)]
pub enum ExecutionMode {
    Sequential,
    Parallel,
}

/// Errors of hook execution.
#[derive(Debug, Clone, PartialEq, Eq)]
pub enum HookExecutorError {
    ExecutionFailed { hook_kind: String, error: String },
    Aborted { hook_kind: String, error: String },
    AllRetriesExhausted { hook_kind: String, attempts: u32 },
    Timeout,
}

/// The text of an optional string field.
pub open spec fn field(o: Option<String>) -> Option<Seq<char>> {
    match o {
        Some(s) => Some(s@),
        None => None,
    }
}

/// Policy configured for a hook: `continue`, `retry` (3 attempts, 500 ms
/// apart unless configured; the attempt count keeps its low 32 bits), or
/// abort for anything else.
pub open spec fn policy_of(c: HookConfig) -> FailurePolicy {
    if field(c.failure_policy) == Some("continue"@) {
        FailurePolicy::Continue
    } else if field(c.failure_policy) == Some("retry"@) {
        FailurePolicy::Retry {
            max_attempts: match c.retry_max_attempts {
                Some(n) => n as u32,
                None => 3,
            },
            delay_ms: match c.retry_delay_ms {
                Some(d) => d,
                None => 500,
            },
        }
    } else {
        FailurePolicy::Abort
    }
}

impl FailurePolicy {
    /// The policy configured for a hook (see [`policy_of`]).
    pub fn from_config(config: &HookConfig) -> (p: Self)
        ensures
            p == policy_of(*config),
    {
        match &config.failure_policy {
            Some(s) => {
                if str_eq(s.as_str(), "continue") {
                    FailurePolicy::Continue
                } else if str_eq(s.as_str(), "retry") {
                    let max_attempts: u32 = match config.retry_max_attempts {
                        Some(n) => n as u32,
                        None => 3,
                    };
                    let delay_ms: u64 = match config.retry_delay_ms {
                        Some(d) => d,
                        None => 500,
                    };
                    FailurePolicy::Retry { max_attempts, delay_ms }
                } else {
                    FailurePolicy::Abort
                }
            },
            None => FailurePolicy::Abort,
        }
    }
}

impl ExecutionMode {
    /// `parallel` when configured so, sequential otherwise.
    pub fn from_config(config: &HookConfig) -> (m: Self)
        ensures
            m == if field(config.execution_mode) == Some("parallel"@) {
                ExecutionMode::Parallel
            } else {
                ExecutionMode::Sequential
            },
    {
        match &config.execution_mode {
            Some(s) => if str_eq(s.as_str(), "parallel") {
                ExecutionMode::Parallel
            } else {
                ExecutionMode::Sequential
            },
            None => ExecutionMode::Sequential,
        }
    }
}

/// Name of a hook kind as used in errors and logs.
pub open spec fn kind_name(k: HookKind) -> Seq<char> {
    match k {
        HookKind::Shell => "shell"@,
        HookKind::StartDevEnvironment => "start_dev_environment"@,
        HookKind::TeardownDevEnvironment => "teardown_dev_environment"@,
        HookKind::AgentDispatch => "agent_dispatch"@,
        HookKind::Webhook => "webhook"@,
    }
}

/// Name of a hook kind (see [`kind_name`]).
pub fn hook_kind_name(k: HookKind) -> (s: String)
    ensures
        s@ == kind_name(k),
{
    match k {
        HookKind::Shell => string_from_literal("shell"),
        HookKind::StartDevEnvironment => string_from_literal("start_dev_environment"),
        HookKind::TeardownDevEnvironment => string_from_literal("teardown_dev_environment"),
        HookKind::AgentDispatch => string_from_literal("agent_dispatch"),
        HookKind::Webhook => string_from_literal("webhook"),
    }
}

/// Indices of the hooks that fire on `trigger`, in stage order.
pub open spec fn fires_on(hooks: Seq<HookDefinition>, trigger: HookTrigger) -> Seq<int>
    decreases hooks.len(),
{
    if hooks.len() == 0 {
        Seq::empty()
    } else if hooks.last().on == trigger {
        fires_on(hooks.drop_last(), trigger).push(hooks.len() - 1)
    } else {
        fires_on(hooks.drop_last(), trigger)
    }
}

/// Positions of the hooks of a stage that fire on `trigger`, in order,
/// and the execution mode: that of the first matching hook, or `None`
/// when no hook matches.
pub fn select_hooks(hooks: &Vec<HookDefinition>, trigger: HookTrigger) -> (r: (Vec<usize>, Option<ExecutionMode>))
    ensures
        r.0@.map_values(|i: usize| i as int) == fires_on(hooks@, trigger),
        r.0.len() == 0 ==> r.1 is None,
        r.0.len() > 0 ==> r.1 == Some(
            if field(hooks@[r.0@[0] as int].config.execution_mode) == Some("parallel"@) {
                ExecutionMode::Parallel
            } else {
                ExecutionMode::Sequential
            },
        ),
{
    let mut idx: Vec<usize> = Vec::new();
    let mut i: usize = 0;
    while i < hooks.len()
        invariant
            i <= hooks.len(),
            idx@.map_values(|k: usize| k as int) == fires_on(hooks@.take(i as int), trigger),
            forall|j: int| 0 <= j < idx.len() ==> #[trigger] idx@[j] < i,
        decreases hooks.len() - i,
    {
        assert(hooks@.take(i + 1).drop_last() =~= hooks@.take(i as int));
        if hooks[i].on == trigger {
            let ghost before = idx@;
            idx.push(i);
            assert(idx@.map_values(|k: usize| k as int) =~= before.map_values(|k: usize| k as int).push(i as int));
        }
        i = i + 1;
    }
    assert(hooks@.take(hooks.len() as int) =~= hooks@);
    if idx.len() == 0 {
        (idx, None)
    } else {
        let mode = ExecutionMode::from_config(&hooks[idx[0]].config);
        (idx, Some(mode))
    }
}

/// What the executor does after a hook attempt under its policy.
#[derive(Debug, PartialEq, Eq)]
pub enum PolicyStep {
    /// Stop with this outcome.
    Done(Result<HookResult, HookExecutorError>),
    /// Wait this many milliseconds, then attempt again.
    RetryAfter(u64),
}

/// Outcome when the policy allows no attempt at all (a retry policy with
/// zero attempts); `None` when a first attempt is to be made.
pub fn before_first_attempt(policy: FailurePolicy) -> (r: Option<Result<HookResult, HookExecutorError>>)
    ensures
        match policy {
            FailurePolicy::Retry { max_attempts, .. } => if max_attempts == 0 {
                r matches Some(Ok(HookResult::Skipped { reason })) && reason@ == "no attempts made"@
            } else {
                r is None
            },
            _ => r is None,
        },
{
    match policy {
        FailurePolicy::Retry { max_attempts, .. } => if max_attempts == 0 {
            Some(Ok(HookResult::Skipped { reason: string_from_literal("no attempts made") }))
        } else {
            None
        },
        _ => None,
    }
}

/// Decision after attempt number `attempt` (from 1) of a hook of kind
/// `kind` produced `result`.
///
/// Abort turns a failure into `Aborted`; continue keeps any result; retry
/// stops at a success, a skip or a non-retryable failure, waits and tries
/// again after a retryable failure while attempts remain, and reports
/// `AllRetriesExhausted` after the last one.
pub open spec fn policy_step(policy: FailurePolicy, kind: HookKind, attempt: u32, result: HookResult) -> PolicyStepView {
    match policy {
        FailurePolicy::Abort => match result {
            HookResult::Failed { error, .. } => PolicyStepView::Aborted(kind_name(kind), error@),
            _ => PolicyStepView::Finish(result),
        },
        FailurePolicy::Continue => PolicyStepView::Finish(result),
        FailurePolicy::Retry { max_attempts, delay_ms } => match result {
            HookResult::Failed { retryable, .. } => if !retryable {
                PolicyStepView::Finish(result)
            } else if attempt < max_attempts {
                PolicyStepView::Wait(delay_ms)
            } else {
                PolicyStepView::Exhausted(kind_name(kind), max_attempts)
            },
            _ => PolicyStepView::Finish(result),
        },
    }
}

/// Mathematical form of a [`PolicyStep`].
pub enum PolicyStepView {
    Finish(HookResult),
    Aborted(Seq<char>, Seq<char>),
    Exhausted(Seq<char>, u32),
    Wait(u64),
}

/// View of a policy step.
pub open spec fn step_view(s: PolicyStep) -> PolicyStepView {
    match s {
        PolicyStep::Done(Ok(r)) => PolicyStepView::Finish(r),
        PolicyStep::Done(Err(HookExecutorError::Aborted { hook_kind, error })) => PolicyStepView::Aborted(
            hook_kind@,
            error@,
        ),
        PolicyStep::Done(Err(HookExecutorError::AllRetriesExhausted { hook_kind, attempts })) => PolicyStepView::Exhausted(hook_kind@, attempts),
        PolicyStep::Done(Err(_)) => PolicyStepView::Wait(0),
        PolicyStep::RetryAfter(d) => PolicyStepView::Wait(d),
    }
}

/// Decide what follows an attempt (see [`policy_step`]).
pub fn next_policy_step(policy: FailurePolicy, kind: HookKind, attempt: u32, result: HookResult) -> (s: PolicyStep)
    ensures
        step_view(s) == policy_step(policy, kind, attempt, result),
        s is RetryAfter <==> policy_step(policy, kind, attempt, result) is Wait,
{
    match policy {
        FailurePolicy::Abort => match result {
            HookResult::Failed { error, .. } => PolicyStep::Done(
                Err(HookExecutorError::Aborted { hook_kind: hook_kind_name(kind), error }),
            ),
            _ => PolicyStep::Done(Ok(result)),
        },
        FailurePolicy::Continue => PolicyStep::Done(Ok(result)),
        FailurePolicy::Retry { max_attempts, delay_ms } => match result {
            HookResult::Failed { retryable, .. } => if !retryable {
                PolicyStep::Done(Ok(result))
            } else if attempt < max_attempts {
                PolicyStep::RetryAfter(delay_ms)
            } else {
                PolicyStep::Done(
                    Err(
                        HookExecutorError::AllRetriesExhausted {
                            hook_kind: hook_kind_name(kind),
                            attempts: max_attempts,
                        },
                    ),
                )
            },
            _ => PolicyStep::Done(Ok(result)),
        },
    }
}

/// A retry policy ends: after attempt `max_attempts` no further wait is
/// ever asked for.
pub proof fn law_retries_bounded(max_attempts: u32, delay_ms: u64, kind: HookKind, attempt: u32, result: HookResult)
    requires
        attempt >= max_attempts,
    ensures
        !(policy_step(FailurePolicy::Retry { max_attempts, delay_ms }, kind, attempt, result) is Wait),
{
}

/// Under abort and continue no attempt is ever repeated.
pub proof fn law_single_attempt_policies(policy: FailurePolicy, kind: HookKind, attempt: u32, result: HookResult)
    requires
        !(policy is Retry),
    ensures
        !(policy_step(policy, kind, attempt, result) is Wait),
{
}

/// Under the continue policy every attempt finishes the hook with its own
/// result: a failure is logged and the transition goes on, never aborts.
pub proof fn law_continue_finishes_with_result(kind: HookKind, attempt: u32, result: HookResult)
    ensures
        policy_step(FailurePolicy::Continue, kind, attempt, result) == PolicyStepView::Finish(
            result,
        ),
{
}

/// A success or a skip is kept as it is by every policy: only a failure can
/// abort, wait or exhaust the retries.
pub proof fn law_non_failure_kept(policy: FailurePolicy, kind: HookKind, attempt: u32, result: HookResult)
    requires
        !(result is Failed),
    ensures
        policy_step(policy, kind, attempt, result) == PolicyStepView::Finish(result),
{
}

/// Under the abort policy a failure aborts the transition with the hook's
/// kind and the failure's error text.
pub proof fn law_abort_reports_failure(kind: HookKind, attempt: u32, error: String, retryable: bool)
    ensures
        policy_step(
            FailurePolicy::Abort,
            kind,
            attempt,
            HookResult::Failed { error, retryable },
        ) == PolicyStepView::Aborted(kind_name(kind), error@),
{
}

/// Under the retry policy a retryable failure waits `delay_ms` while
/// attempts remain and reports the exhausted retries with `max_attempts`
/// after the last one; a failure that is not retryable ends the hook with
/// that failure.
pub proof fn law_retry_steps(
    max_attempts: u32,
    delay_ms: u64,
    kind: HookKind,
    attempt: u32,
    error: String,
    retryable: bool,
)
    ensures
        ({
            let r = HookResult::Failed { error, retryable };
            let s = policy_step(FailurePolicy::Retry { max_attempts, delay_ms }, kind, attempt, r);
            &&& retryable && attempt < max_attempts ==> s == PolicyStepView::Wait(delay_ms)
            &&& retryable && attempt >= max_attempts ==> s == PolicyStepView::Exhausted(
                kind_name(kind),
                max_attempts,
            )
            &&& !retryable ==> s == PolicyStepView::Finish(r)
        }),
{
}

/// Result of a hook kind that only marks a stage boundary (dev environment
/// start and teardown, webhook): success without output.
pub fn placeholder_result() -> (r: HookResult)
    ensures
        r == (HookResult::Success { output: None }),
{
    HookResult::Success { output: None }
}

} // verus!

verus! {

/// Context of a hook execution.
#[derive(Debug, Clone, PartialEq, Eq)]
pub struct HookContext {
    pub task_id: String,
    pub agent_id: Option<String>,
    pub session_id: String,
    pub stage_name: String,
    pub trigger: HookTrigger,
    pub pipeline_name: String,
    /// Extra environment variables for shell hooks, in order.
    pub env: Vec<(String, String)>,
}

/// Texts of a list of variable assignments.
pub open spec fn pair_views(s: Seq<(String, String)>) -> Seq<(Seq<char>, Seq<char>)> {
    s.map_values(|p: (String, String)| (p.0@, p.1@))
}

/// Text of a trigger as passed to shell hooks.
pub open spec fn trigger_text(t: HookTrigger) -> Seq<char> {
    match t {
        HookTrigger::Enter => "enter"@,
        HookTrigger::Exit => "exit"@,
        HookTrigger::OnStall => "on_stall"@,
    }
}

/// The shell command of a hook, or the failure reported when it has none.
pub fn shell_command(config: &HookConfig) -> (r: Result<String, HookResult>)
    ensures
        match config.command {
            Some(c) => r matches Ok(s) && s@ == c@,
            None => r matches Err(HookResult::Failed { error, retryable }) && error@
                == "shell hook missing required 'command' field"@ && !retryable,
        },
{
    match &config.command {
        Some(c) => Ok(c.clone()),
        None => Err(
            HookResult::Failed {
                error: string_from_literal("shell hook missing required 'command' field"),
                retryable: false,
            },
        ),
    }
}

/// The standard environment of a shell hook: `MOLT_TASK_ID`,
/// `MOLT_STAGE`, `MOLT_TRIGGER`, `MOLT_PIPELINE`, `MOLT_SESSION_ID`, then
/// `MOLT_AGENT_ID` when an agent is set, then the context's extra
/// variables in order.
pub open spec fn shell_env_spec(ctx: HookContext) -> Seq<(Seq<char>, Seq<char>)> {
    seq![
        ("MOLT_TASK_ID"@, ctx.task_id@),
        ("MOLT_STAGE"@, ctx.stage_name@),
        ("MOLT_TRIGGER"@, trigger_text(ctx.trigger)),
        ("MOLT_PIPELINE"@, ctx.pipeline_name@),
        ("MOLT_SESSION_ID"@, ctx.session_id@),
    ] + match ctx.agent_id {
        Some(a) => seq![("MOLT_AGENT_ID"@, a@)],
        None => Seq::empty(),
    } + pair_views(ctx.env@)
}

fn trigger_string(t: HookTrigger) -> (s: String)
    ensures
        s@ == trigger_text(t),
{
    match t {
        HookTrigger::Enter => string_from_literal("enter"),
        HookTrigger::Exit => string_from_literal("exit"),
        HookTrigger::OnStall => string_from_literal("on_stall"),
    }
}

/// Environment variables of a shell hook (see [`shell_env_spec`]).
pub fn shell_env(ctx: &HookContext) -> (r: Vec<(String, String)>)
    ensures
        pair_views(r@) == shell_env_spec(*ctx),
{
    let mut r: Vec<(String, String)> = Vec::new();
    r.push((string_from_literal("MOLT_TASK_ID"), ctx.task_id.clone()));
    r.push((string_from_literal("MOLT_STAGE"), ctx.stage_name.clone()));
    r.push((string_from_literal("MOLT_TRIGGER"), trigger_string(ctx.trigger)));
    r.push((string_from_literal("MOLT_PIPELINE"), ctx.pipeline_name.clone()));
    r.push((string_from_literal("MOLT_SESSION_ID"), ctx.session_id.clone()));
    match &ctx.agent_id {
        Some(a) => {
            r.push((string_from_literal("MOLT_AGENT_ID"), a.clone()));
        },
        None => {},
    }
    let ghost base = pair_views(r@);
    let n0 = r.len();
    let mut i: usize = 0;
    while i < ctx.env.len()
        invariant
            i <= ctx.env.len(),
            r.len() == n0 + i,
            pair_views(r@) == base + pair_views(ctx.env@.take(i as int)),
        decreases ctx.env.len() - i,
    {
        let (k, v) = &ctx.env[i];
        let ghost before = r@;
        let pair = (k.clone(), v.clone());
        assert(pair.0@ == ctx.env@[i as int].0@ && pair.1@ == ctx.env@[i as int].1@);
        r.push(pair);
        assert(pair_views(r@) =~= pair_views(before).push((pair.0@, pair.1@)));
        assert(pair_views(ctx.env@.take(i + 1)) =~= pair_views(ctx.env@.take(i as int)).push(
            (ctx.env@[i as int].0@, ctx.env@[i as int].1@),
        ));
        i = i + 1;
        assert(pair_views(r@) =~= base + pair_views(ctx.env@.take(i as int)));
    }
    assert(ctx.env@.take(ctx.env.len() as int) =~= ctx.env@);
    assert(base + pair_views(ctx.env@) =~= shell_env_spec(*ctx));
    r
}

/// How a shell hook's process ended.
#[derive(Debug, Clone, Copy, PartialEq, Eq, Structural)]
pub enum ShellExit {
    /// Exit status zero.
    Success,
    /// Non-zero exit code.
    Code(i32),
    /// Killed by a signal (no exit code).
    Signal,
}

/// Output shown for a shell hook: trimmed stdout and stderr, joined by a
/// newline when both are non-empty.
pub open spec fn combined_output(stdout: Seq<char>, stderr: Seq<char>) -> Seq<char> {
    if trim(stderr).len() == 0 {
        trim(stdout)
    } else if trim(stdout).len() == 0 {
        trim(stderr)
    } else {
        trim(stdout) + "\n"@ + trim(stderr)
    }
}

/// Result of a shell hook whose process ran: success with the combined
/// output (none if empty); otherwise a retryable failure naming the exit
/// code (or the signal) followed by the output.
pub open spec fn shell_result_text(stdout: Seq<char>, stderr: Seq<char>, exit: ShellExit) -> (bool, Option<Seq<char>>) {
    let out = combined_output(stdout, stderr);
    match exit {
        ShellExit::Success => (true, if out.len() == 0 {
            None
        } else {
            Some(out)
        }),
        _ => {
            let code = match exit {
                ShellExit::Code(c) => "exit code "@ + signed_decimal(c as int),
                _ => "killed by signal"@,
            };
            (false, Some(if out.len() == 0 {
                code
            } else {
                code + ": "@ + out
            }))
        },
    }
}

/// Result of a shell hook from its captured output and exit (see
/// [`shell_result_text`]); failures are retryable.
pub fn shell_outcome(stdout: &str, stderr: &str, exit: ShellExit) -> (r: HookResult)
    ensures
        ({
            let (ok, text) = shell_result_text(stdout@, stderr@, exit);
            if ok {
                r matches HookResult::Success { output } && field(output) == text
            } else {
                r matches HookResult::Failed { error, retryable } && Some(error@) == text && retryable
            }
        }),
{
    let so = trim_str(stdout);
    let se = trim_str(stderr);
    let combined = if se.as_str().is_empty() {
        so
    } else if so.as_str().is_empty() {
        se
    } else {
        concat3(so.as_str(), "\n", se.as_str())
    };
    match exit {
        ShellExit::Success => HookResult::Success {
            output: if combined.as_str().is_empty() {
                None
            } else {
                Some(combined)
            },
        },
        _ => {
            let code = match exit {
                ShellExit::Code(c) => {
                    let d = i64_to_string(c as i64);
                    concat2("exit code ", d.as_str())
                },
                _ => string_from_literal("killed by signal"),
            };
            let error = if combined.as_str().is_empty() {
                code
            } else {
                concat3(code.as_str(), ": ", combined.as_str())
            };
            HookResult::Failed { error, retryable: true }
        },
    }
}

/// Failure of a shell hook whose process could not be started; retryable.
pub fn shell_spawn_failure(message: &str) -> (r: HookResult)
    ensures
        r matches HookResult::Failed { error, retryable } && error@ == "failed to spawn process: "@
            + message@ && retryable,
{
    HookResult::Failed { error: concat2("failed to spawn process: ", message), retryable: true }
}

/// Failure of a hook that ran past its timeout; not retryable.
pub fn hook_timed_out() -> (r: HookResult)
    ensures
        r matches HookResult::Failed { error, retryable } && error@ == "hook timed out"@ && !retryable,
{
    HookResult::Failed { error: string_from_literal("hook timed out"), retryable: false }
}

/// Parameters of an agent-dispatch hook.
#[derive(Debug, Clone, PartialEq, Eq)]
pub struct DispatchParams {
    pub instruction: String,
    pub timeout_seconds: u64,
    pub working_dir: String,
}

/// Parameters of an agent-dispatch hook: the instruction is required;
/// the timeout defaults to 300 seconds and the working directory to `.`.
pub fn dispatch_params(config: &HookConfig) -> (r: Result<DispatchParams, HookResult>)
    ensures
        match config.instruction {
            None => r matches Err(HookResult::Failed { error, retryable }) && error@
                == "agent_dispatch hook missing required 'instruction' field"@ && !retryable,
            Some(i) => r matches Ok(p) && p.instruction@ == i@ && p.timeout_seconds == match config.timeout_seconds {
                Some(t) => t,
                None => 300,
            } && p.working_dir@ == match config.working_dir {
                Some(w) => w@,
                None => "."@,
            },
        },
{
    let instruction = match &config.instruction {
        Some(i) => i.clone(),
        None => {
            return Err(
                HookResult::Failed {
                    error: string_from_literal("agent_dispatch hook missing required 'instruction' field"),
                    retryable: false,
                },
            );
        },
    };
    let timeout_seconds: u64 = match config.timeout_seconds {
        Some(t) => t,
        None => 300,
    };
    let working_dir = match &config.working_dir {
        Some(w) => w.clone(),
        None => string_from_literal("."),
    };
    Ok(DispatchParams { instruction, timeout_seconds, working_dir })
}

/// Failure of a sub-agent spawn: retryable when the adapter reports a
/// spawn failure, not retryable for any other adapter error.
pub fn dispatch_spawn_failure(spawn_failed: bool, message: &str) -> (r: HookResult)
    ensures
        spawn_failed ==> (r matches HookResult::Failed { error, retryable } && error@
            == "agent_dispatch spawn failed: "@ + message@ && retryable),
        !spawn_failed ==> (r matches HookResult::Failed { error, retryable } && error@
            == "agent_dispatch adapter error: "@ + message@ && !retryable),
{
    if spawn_failed {
        HookResult::Failed { error: concat2("agent_dispatch spawn failed: ", message), retryable: true }
    } else {
        HookResult::Failed { error: concat2("agent_dispatch adapter error: ", message), retryable: false }
    }
}

/// Status of a dispatched sub-agent, as polled.
#[derive(Debug, Clone, PartialEq, Eq)]
pub enum SubAgentStatus {
    Completed,
    Terminated,
    Failed,
    Crashed { error: String },
    /// Still starting or running.
    Busy,
    /// The status check itself failed.
    CheckError { error: String },
}

/// Verdict of one status poll: `None` keeps polling; otherwise the
/// sub-agent's end, `Ok` for completed or terminated, else the reason.
pub fn dispatch_poll(status: &SubAgentStatus) -> (r: Option<Result<(), String>>)
    ensures
        match *status {
            SubAgentStatus::Completed | SubAgentStatus::Terminated => r == Some(Ok::<(), String>(())),
            SubAgentStatus::Failed => r matches Some(Err(m)) && m@ == "sub-agent exited with non-zero status"@,
            SubAgentStatus::Crashed { error } => r matches Some(Err(m)) && m@ == "sub-agent crashed: "@ + error@,
            SubAgentStatus::Busy => r is None,
            SubAgentStatus::CheckError { error } => r matches Some(Err(m)) && m@ == "status check error: "@ + error@,
        },
{
    match status {
        SubAgentStatus::Completed | SubAgentStatus::Terminated => Some(Ok(())),
        SubAgentStatus::Failed => Some(Err(string_from_literal("sub-agent exited with non-zero status"))),
        SubAgentStatus::Crashed { error } => Some(Err(concat2("sub-agent crashed: ", error.as_str()))),
        SubAgentStatus::Busy => None,
        SubAgentStatus::CheckError { error } => Some(Err(concat2("status check error: ", error.as_str()))),
    }
}

/// Result of an agent-dispatch hook whose sub-agent ended: success naming
/// the agent, or a non-retryable failure with the reason.
pub fn dispatch_outcome(end: Result<(), String>, agent_id: &str) -> (r: HookResult)
    ensures
        match end {
            Ok(()) => r matches HookResult::Success { output } && field(output) == Some(
                "agent_dispatch completed (agent "@ + agent_id@ + ")"@,
            ),
            Err(m) => r matches HookResult::Failed { error, retryable } && error@ == "agent_dispatch: "@
                + m@ && !retryable,
        },
{
    match end {
        Ok(()) => HookResult::Success {
            output: Some(concat3("agent_dispatch completed (agent ", agent_id, ")")),
        },
        Err(m) => HookResult::Failed { error: concat2("agent_dispatch: ", m.as_str()), retryable: false },
    }
}

/// Result of an agent-dispatch hook whose sub-agent outlived its timeout.
pub fn dispatch_timed_out(timeout_seconds: u64) -> (r: HookResult)
    ensures
        r matches HookResult::Failed { error, retryable } && error@
            == "agent_dispatch: sub-agent timed out after "@ + decimal(timeout_seconds as nat) + "s"@
            && !retryable,
{
    let d = u64_to_string(timeout_seconds);
    HookResult::Failed {
        error: concat3("agent_dispatch: sub-agent timed out after ", d.as_str(), "s"),
        retryable: false,
    }
}

/// Result of an agent-dispatch hook when no agent adapter is configured.
pub fn dispatch_without_adapter() -> (r: HookResult)
    ensures
        r matches HookResult::Skipped { reason } && reason@ == "no AgentAdapter configured"@,
{
    HookResult::Skipped { reason: string_from_literal("no AgentAdapter configured") }
}

} // verus!
