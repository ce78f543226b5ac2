# tasklist

A small to-do list kept in `~/todo.json`, with its logic verified by Verus.

- `src/model.rs` — dates, times, task states and tasks as plain values.
- `src/text.rs` — splitting, trimming, decimal numbers and padding over characters.
- `src/calendar.rs` — the calls into `chrono` (reading and writing times, the clock).
- `src/store.rs` — the stored text of a task and of the list, the listing row, and the
  check of a date typed on the command line.
- `src/utils.rs` — the values of a subcommand, ids, and the days and times they give.
- `src/commands.rs` — what each subcommand changes, reports, and whether the list is saved.
- `src/split_facts.rs`, `src/time_facts.rs`, `src/laws.rs` — proofs: a stored list of tasks
  whose titles have no `,` or `: ` (nor white space or `"` at either end) reads back as
  itself, times of every year in the calendar's range included, the empty list included; numbers read back;
  what the commands keep; a narrower listing shows a subsequence.
- `app/` — the command line (`clap`), the file in the home directory (`dirs`), printing.
