# memtty

A GPU-rendered terminal emulator whose core is verified with Verus.

## Layout

- `src/` — the verified library.
  - `performer/` — the screen model: grid, scrollback, alternate screen,
    cursor, modes, SGR attributes, OSC and DCS handling, and the dispatch of
    parser actions. `model.rs` holds the mathematical model (`PerformerView`)
    that every operation's contract is stated over; `laws.rs` holds the
    properties that relate several operations.
  - `action.rs` — the actions of the VT parser (`vte`) and the trusted
    wrappers around it.
  - `terminal.rs` — parser and screen together, and the viewport over
    scrollback plus screen.
  - `cell.rs`, `color.rs`, `charset.rs`, `text.rs` — cells, colors and
    palettes, character sets, and small text helpers.
  - `history.rs` — shell history parsing, completion and its preview.
  - `selection.rs`, `pointer.rs`, `links.rs` — text selection, how clicks
    and drags change it, and link detection.
  - `input.rs` — keyboard shortcuts and the bytes keys send.
  - `settings.rs`, `appearance.rs`, `session.rs`, `pending.rs` — settings
    panel layout and hit testing, drawing colors, tab bookkeeping, and the
    queue of PTY output waiting to be parsed.
  - `redraw.rs` — which rows of a frame changed, and the styled text runs
    the renderer shapes.
- `tests/` — tests of the library on concrete values.
- `app/` — the window (winit), the GPU renderer (wgpu, glyphon), the PTY
  threads (portable-pty), the clipboard and the history files: everything
  that does I/O or works in floating-point pixels. It calls the library for
  every decision.
