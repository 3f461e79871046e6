# automode

Unattended runs of a coding agent, and the patch format that the agent writes: the logic as a
verified library, and the programs around it.

- `src/text.rs`, `src/paths.rs`, `src/duration.rs`: texts, paths and run times, with what their
  functions mean.
- `src/patch/`: the apply-patch format. `batch.rs` parses a complete patch, `stream.rs` follows one
  that is still being written, `grammar.rs` and `grammar_stream.rs` show that both read what the
  grammar writes, and `plain.rs` that they agree on every plain text.
- `src/automode/`: a non-interactive run. A simulated operator and a worker take turns until a
  deadline (`run_loop.rs`). `turn.rs` collects what happens in a turn, `decision.rs` turns the
  operator's answers into decisions and progress documents, and `state.rs` and `runtime.rs` say
  what a run starts from.
- `src/session/`: a run inside of an interactive session. `command.rs` reads the `/automode`
  command, `goal.rs` finds the goal of a run again, `run_state.rs` and `controller.rs` take it from
  turn to turn.
- `src/cli.rs`, `src/update_action.rs`: what the command line says, and how an installation is
  brought up to date.
- `src/shell.rs`, `src/json.rs`: the calls into `shlex` and `serde_json`, with what is taken for
  granted about them.
- `app/`: files, clocks, the agent's server, the terminal and the command line's parser.

Texts are sequences of characters in contracts, and every type that holds data has a view that says
what it holds. Files that end in `_laws.rs`, and functions whose names start with `law_`, state what
holds of several functions together.

How a path is read depends on the machine: where a slash separates its parts the library says what
it means, and elsewhere the standard library does. Times are whole seconds in requests, and
nanoseconds of a clock that the caller reads in running programs.
