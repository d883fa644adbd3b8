# loopgen

An agentic loop runner: it turns a one-line goal into a harness prompt and
drives a headless coding-agent CLI (`<bin> -p <prompt> --output-format json`)
iteration by iteration until the `LOOP_STATUS` contract trips: `DONE`
(optionally gated on a verify command that must exit 0), `BLOCKED`, or the
`--max` iteration cap.

Layout:

- `src/` — the verified library (Verus):
  - `text.rs`: character-level helpers (trim, ASCII case, decimal formatting).
  - `status.rs`: the `LOOP_STATUS` line parser; the regex match itself is a
    trusted call into the `regex` crate, everything after it is proved.
  - `harness.rs`: the run configuration, the slug, the Definition of Done and
    the harness prompt, each with an exact specification.
  - `engine.rs`: exit codes, per-iteration prompts, the running state, the
    verify gate and the `LoopEngine` state machine that decides when the loop
    stops.
  - `laws.rs`: properties of the loop as a whole (last match wins, `DONE`
    needs a passing verify command, the iteration cap, the state cap, the
    shape and idempotence of slugs, the outcome of a whole run, ...).
- `app/` — the command line: argument parsing (clap), JSON parsing of the
  agent's reply (serde), and running the agent and the verify command.
- `tests/` — tests of the library.

Exit codes: `0` DONE, `2` BLOCKED, `3` reached `--max` without DONE, `1`
internal or setup error.
