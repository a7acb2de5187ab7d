# color_picker

A macOS colour picker with a terminal front end: a ring follows the cursor,
the colour under it streams into a two-column TUI, and colours can be saved,
copied as `#RRGGBB`, deleted and cleared.

- `src/` is the verified library:
  - `color.rs`: the colour type, its `#RRGGBB` text, reading hex text back
    (byte for byte as the standard library's slicing and base-16 parsing do),
    and the proof that writing then reading a colour gives it back.
  - `storage.rs`: the list of saved colours (add, remove, clear, read back).
  - `tui/app.rs`: the front end's state machine; each operation says exactly
    how the state changes and what the caller must do (write the list, copy to
    the clipboard). Laws: the stream is bounded and newest first, repeats are
    ignored, clearing takes two requests, every change is written out.
  - `tui/input.rs`: key bindings.
  - `sampler.rs`: decoding the captured screen pixel.
- `app/` is the program around it: the AppKit overlay, CoreGraphics capture,
  the crossterm/ratatui event loop and drawing, the clipboard, and JSON files.
- `tests/` runs the library on concrete values.
