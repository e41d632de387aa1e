# kokuban

The verified core of a terminal emulator: the screen with its history, the
encoding of keys, pointers and pastes, panes, the system palette, the clipboard
queue, and the rules of the window. Verus proves every function in `src/`
against its contract.

- `src/grid/` holds the screen: cells, rows, scrolling, wide glyphs, clusters,
  reflow, the alternate screen and the history. Laws about the screen as a whole
  stand in `whole.rs` (glyphs stay whole), `bounded.rs` (the history stays
  within its budget), `runs.rs` (runs match their scalars), `operations.rs` (what
  any sequence of operations keeps) and `preserve.rs` (resizing keeps the text).
- `src/input/` turns keys, pointer events and pastes into bytes.
- `src/window/` decides on window events: `state.rs` takes the events,
  `composition.rs` lays out composed text, `paint.rs` lists what is drawn.
- `src/layout/`, `src/launch_options.rs`, `src/linux_clipboard.rs` and
  `src/omarchy_theme.rs` are the panes, the command line, the clipboard queue and
  the palette.
- `app/` is the program around the library: the event loop, files, threads and
  floating-point geometry.
