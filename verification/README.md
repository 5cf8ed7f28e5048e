# gitdrift

A terminal view of every git repository under a set of roots, sorted by how
far each has drifted: uncommitted changes, commits not pushed or not pulled,
stashes, detached or missing upstreams. From the list you can inspect a
repository, fetch, fast-forward, switch or delete branches, prune branches
whose upstream is gone, and drop stashes, each destructive step behind a
confirmation.

## Layout

- `src/` is the library, verified with Verus. It holds the decisions: how
  rows are scored and ordered, what each key does to the list's state
  (`ui/model.rs` states it, `ui/state.rs` implements it), what the event
  loop does with each message (`ui/driver.rs`), the text and measures the
  screen is built from (the list's columns, the footer, the detail pane's
  sections and branch marks, the confirmation listing, the bar of incoming
  changes: `ui/view.rs`, `render.rs`), which branches a prune may delete
  and whether a pull may go ahead (`actions.rs`), and the settings
  (`config.rs`). `ui/laws.rs` proves the promises that span calls: nothing
  destructive without confirmation, marks and rows never duplicated, the
  cursor always on a row, job ids never reused, a rescan returning to the
  repository the cursor was on. Every public call on the list keeps one row
  per repository, job ids fresh and the cursor on a row, so these hold in
  every state it can reach.
- `app/` is the program around it: reading repositories with `gix`, walking
  the roots with `ignore`, running `git`, styling and drawing with
  `ratatui`, the terminal loop, and command-line and config-file parsing.
- `tests/` exercises the library on concrete values.
