# agent_ssh

A policy broker for SSH, written in Verus: callers name a server and a command
profile, the broker checks them against its configuration, renders the
profile's template with shell-quoted arguments, and records every decision in
an audit trail.

## Layout

- `src/` — the verified library.
  - `text.rs`, `table.rs` — character sequences, UTF-8 lengths, trimming,
    and a string-keyed map kept in key order.
  - `identifiers.rs`, `config.rs`, `validate.rs` — names, the configuration
    model, and the validation of a configuration as read.
  - `render.rs` — template compilation and rendering, shell quoting.
  - `planner.rs`, `executor.rs`, `audit.rs`, `error.rs` — planning a run,
    the `ssh` command lines, audit events and error texts.
  - `session.rs` — broker-held sessions: lapse, policy, command resolution.
  - `dotenv.rs`, `client.rs`, `signer.rs` — `.env` files and `--arg` pairs,
    the agent-facing client, and signer types.
- `tests/` — tests run against the compiled library.
- `app/` — the `agent-ssh` command line and everything that touches files,
  processes, the clock or the environment.

Run `verus` on `src/lib.rs` to check the proofs.
