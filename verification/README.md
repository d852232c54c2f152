# gangplank

The bridge from a GPUI `Render` impl to a shipped macOS app: hooks for GPUI
views, shader effects inside GPUI layout, and `cargo gangplank`, which turns
a GPUI binary into a signed `.app`.

The decisions are a library verified with Verus; GPUI, Metal and the file
system stay outside it.

## Layout

- `src/` — the verified library.
  - `text_input`, `keys`, `selectable_text`: the one-line text field
    (editing, selection, UTF-16 ranges for the input method, key map),
    keyboard-shortcut matching, and mouse selection over read-only text.
  - `resource`, `debounce`, `clipboard`, `interval`, `previous`,
    `file_watch`, `command`, `persisted`, `window_state`, `open_files`:
    the state each hook keeps and the rule it follows when work finishes,
    a timer fires or a file arrives.
  - `params`, `effect`, `shadertoy`, `wgsl`: the shader parameter layout
    and its MSL, WGSL and GLSL declarations, the effect's source, clock,
    images and pipeline fallback, and the GLSL and WGSL front ends that
    hand the wrapped source to naga.
  - `bundle`: the `cargo gangplank` command line, binary choice, names and
    `Info.plist`.
  - `text`, `paths`: string helpers and paths as values.
- `tests/` — tests of the library, run against the real `regex` and `naga`.
- `app/` — the GPUI entities, elements and timers, the Metal renderer, and
  the `cargo gangplank` command itself.
