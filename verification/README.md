# yaru

A task and tag manager for the command line, with its logic verified by Verus.

## Layout

- `src/` — the verified library.
  - `domain/` — value objects (`task`, `tag`, `date`), the task aggregate and
    its events, the completion-time rules (`completion`), specifications,
    statistics and in-memory repositories.
  - `cli/` — argument grammar (filters, sort keys, dates), keyword search and
    what the task commands build and change.
  - `display/` — text formatting, the statistics view and the tables.
  - `persistence/` — the mapping between aggregates and stored rows.
  - `config.rs`, `presentation.rs`, `tui.rs`, `todo.rs`, `tag.rs`,
    `repository.rs` — configuration paths, the presenter, the terminal UI's
    key handling, and the JSON-file todo and tag records.
- `tests/` — tests of the library, run against the real outside crates.
- `app/` — the program: argument parsing, prompts, files, printing and the
  terminal UI loop.

Calls into chrono and comfy-table stand behind trusted wrappers whose
contracts say what those crates' sources show.
