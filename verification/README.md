# palette_orchestrator

The decision logic of the Palette orchestrator, written in Verus and proved
against its contracts: where a job's plan and workspace live, how the
perspective configuration is validated, what instruction a worker gets, how
workers are monitored, suspended and recovered, how the task tree completes
and activates, how a craft job's reviews cycle, how members and supervisors
are spawned, and how review diffs and orchestrator checks are prepared.

Layout:

- `src/` — the verified library. `laws.rs` states the properties that span
  several functions or calls (pane observations over time, crash counts,
  suspend plans and suspend runs, posted reviews, accepted perspective configurations, plan
  paths, keyed memories).
- `tests/` — executable tests of the library on concrete values.
- `app/` — the host side: reading configuration and review files, asking the
  file system what paths resolve to, running git and check commands, and the
  loops that carry out the library's step functions (the monitor's polling,
  the suspend sequence).
