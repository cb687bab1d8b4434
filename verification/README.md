# molt_hub_server (verified core)

The verified core of the Molt Hub server: the decisions and data
transformations behind its HTTP API, written in Verus and proved against
their contracts.

## Layout

- `src/` — the library, verified by Verus.
  - `domain`, `projection`, `task_list`, `task_requests`, `event_queries`,
    `actor_events` — the task event log and the views and checks derived
    from it (board, triage inbox, task detail and timeline, task list).
  - `approvals`, `attention` — approval requests and notification routing.
  - `audit`, `boards`, `pipeline` — the audit log query, board errors and
    pipeline stage configuration.
  - `credentials` — scoped credential storage and the alias index.
  - `hooks` — stage hook selection and failure policies.
  - `agents` — agent request checks, output buffering and worktrees.
  - `integrations` — GitHub and Jira helpers, OAuth state and tokens.
  - `text`, `ids`, `concurrent_map` — string helpers, identifiers and time,
    and the concurrent map used by the stores.
- `tests/` — tests of the library on concrete values.
- `app/` — the `molt-hub` binary: command line, environment, pipes for
  credential delivery, the audit writer task and its HTTP route.
