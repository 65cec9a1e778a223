# ultranano

A minimal terminal text editor in the style of nano, whose editing logic is
verified with Verus.

- `src/text.rs` — grapheme clusters (from `unicode-segmentation`), display
  widths (from `unicode-width`) and the string operations built on them.
- `src/model.rs` — the abstract editor state and what every operation does to it.
- `src/editor.rs` — the editor itself, each operation proved against the model.
- `src/input.rs` — key bindings; `src/session.rs` — one turn of the event loop
  (a turn that saves hands back the path and text to write, and takes the
  outcome of the write afterwards);
  `src/render.rs` — the layout of a frame (horizontal scrolling with `<` and `>`
  markers where a line is cut, the inline help on the bottom row);
  `src/args.rs` — the command line.
- `src/laws.rs` — properties that span several operations.
- `app/main.rs` — terminal handling (`crossterm`), file I/O and the event loop.
