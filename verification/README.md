# zord

The editing core of the Zord editor, verified with Verus.

- `src/rope.rs` — the `ropey::Rope` text store as Verus sees it: the
  characters it holds, and its lines defined over them as ropey defines them.
- `src/lines.rs` — facts about lines: starts grow, every position lies on
  exactly one line.
- `src/buffer.rs` — a buffer: text, file path, line count, gutter width and
  the bounded undo/redo history.
- `src/editing.rs` — what typing, pasting, copying, Backspace, Enter and the
  arrow keys do to a buffer and its caret.
- `src/workspace.rs` — buffers, views, splits, the output log, loading and
  saving, and the panel switches.
- `src/syntax.rs`, `src/display.rs`, `src/text.rs` — syntax colouring, log
  colouring, explorer badges and the string routines behind them.
- `src/clock.rs` — the time stamp of log lines.
- `src/shortcuts.rs` — which commands the keys pressed in a frame ask for.
- `src/frame.rs` — one whole frame: shortcut commands, arrived files, input,
  then line counts brought up to date; a Ctrl+Z or Ctrl+Y frame is exactly
  an undo or a redo.
- `src/laws.rs` — properties that span several operations (undo/redo round
  trips, undo after an edit, split then merge, cursor movement landing on
  the right line, every step of a frame keeping the editor well formed, ...).
- `app/main.rs` — the egui window, file system access and threads.
