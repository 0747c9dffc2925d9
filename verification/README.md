# llama-harness-core

A verified core for running agents over local models: which tools a model gets to see, which
calls may run, what is recorded of them, and what a run reports when it is over. The library is
written in Verus; every function states what it returns, and the laws that hold between functions
are proved beside them.

## Layout

- `src/` is the verified library. It holds no clock, no network and no threads: a run is a machine
  that is handed what happened and answers with what to do next.
  - `direct`, `planned`, `plan_run`, `reactive`, `program_run`, `batch_run`, `stream_turn`,
    `commit` and `simple_run` are those machines. `plan_model`, `plan_state`, `planned_model`,
    `program_batch` and `strategy_core` hold what they share; `direct_laws` and `plan_laws` state
    what their results tell.
  - `admission`, `broker`, `ledger` and `settlement` keep account of proposals, calls and effects.
  - `discovery`, `lexicon`, `ranking`, `catalog`, `tool_registry`, `scope_selection` and `guard`
    choose tools; `visibility` and `fingerprint` state what the choice depends on.
  - `speculation` and `speculative_call` decide whether a call may run early.
  - `plan`, `plan_preflight`, `binding` and `schedule` are about declarative plans;
    `programmatic` and `program_schema` about programs.
  - `json`, `pointer`, `canonical` and `text` are values and texts; `schema` checks values, and
    `schema_walk` and `schema_guard` say which schemas can be compiled and applied safely.
  - `routing` and `lifecycle` open and close runs.
  - `manifest`, `report` and `console` serve the command line and the developer console.
- `app/` is ordinary Rust around the library: the command line, files, providers, time and tasks.
- `tests/` runs the library against real JSON, schema, hashing and identifier crates.

## What is not proved

Calls into other crates stand behind small wrappers whose contracts are believed: parsing and
printing JSON and finding places in it (`serde_json`), checking schemas (`jsonschema`), hashing
(`blake3`) and random identifiers (`uuid`). Each says in its comment what it claims.
