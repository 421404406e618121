# degens session-turn kernel

A Verus library holding the logic of the session-turn kernel of the degens
game canister, with its contracts proved:

- `src/` — the verified library.
  - Turn runtimes: `runtime` and `store` keep the heap runtime of each active
    turn and the store of runtimes ordered by key; `projection`, `flush` and
    `turn_ops` cover the projection dirty queue, its checkpoint and the flush
    order; `turn_setup`, `carry` and `event_seq` open turns, carry state
    between turns and hand out event sequence numbers; `snapshot` keeps the
    runtimes across an upgrade; `latest_views` and `mirror` read from and
    mirror stored rows into the latest turns of a session; `caller_cache`
    remembers active session callers.
  - Movement: `movement_rules`, `conflicts`, `step_rules`, `movement_pass`,
    `partial_move`, `intent_submission`, `object_interaction` and `vision`.
  - World view: `object_view`, `scenario_content`, `listing`,
    `view_listing`, `map_listing`, `champion_views` and `render_rules`.
  - Scenario: `rule_eval`, `maintenance`, `scenario_receipt`, `battle_setup`.
  - Commands: `command_answer` holds the failed answer of a command and
    its public error; `intent_submission` and `turn_rules` build it.
  - Shared rules and encodings: `resources`, `turn_rules`, `json`,
    `path_text`, `text`, `seqs`, `order`, `dup`; `laws` states properties
    that span several operations.
- `app/` — the canister-side glue: the heap store and caller cache in
  thread-locals, the candid codec of the upgrade snapshot, and drivers that
  run storage work between the kernel's decisions.
- `tests/` — executable tests of the library.
