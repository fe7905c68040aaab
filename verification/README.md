# pitboss

Runs coding agents unattended, in two ways.

- `pitboss play` works through a phased `plan.md`: it dispatches an implementer
  for each phase, has the tests run, sends a fixer after failures and an auditor
  after successes, and lands one commit per phase. Work that an agent puts off
  goes to `deferred.md` and is swept up between phases.
- `pitboss grind` rotates through a set of prompts, one session after another or
  side by side in git worktrees, until the schedule, a budget or the user ends
  the run.

What is done, in which order, what is counted and what subscribers are told is
decided in the library, which is verified with Verus. Running agents, tests, hooks
and git, reading and writing files, and decoding JSON, TOML and prompt metadata
is left to the command-line program.

## Layout

- `src/plan`, `src/deferred` — the two documents: models, parsers, renderers,
  and the round-trip laws between them.
- `src/runner` — playing a plan: the runner, the run of a phase (`phase_run`) and
  of a sweep (`sweep_run`), the pipeline that they share (`pipeline`), the
  validation of a dispatch (`validation`), the bookkeeping of sweeps (`sweep`),
  the end of a run (`drain`), and what subscribers are told (`events`).
- `src/grind` — grinding: prompts and their discovery, plans, the scheduler,
  budgets, hooks, sessions, worktrees, run directories, resuming, and the run
  itself.
- `src/prompts` — the templates and how they are filled in.
- `src/test_runner`, `src/git`, `src/agent`, `src/config`, `src/state`,
  `src/style`, `src/paths`, `src/time`, `src/money`, `src/table`, `src/text` —
  what the others are built on.
- `tests` — tests of the library.
- `app` — the command-line program.

Where the library waits for something outside, it does so through a state
machine (`PhaseRun`, `SweepRun`, `Pipeline`, `Validation`, `FinalDrain`,
`GrindRunner`, `SessionTask`, `VerifyLoop`, `SessionMerge`): `step` says what is
due, and `advance` takes in what came of it.
