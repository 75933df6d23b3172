# navigator

Keyboard-driven UI hints: press a hotkey, hints appear over the clickable elements of the
foreground window, type a label, and the element is acted on.

This crate is the verified core of that tool, written with Verus. The functions in `src/`
carry `requires`/`ensures` contracts that Verus proves, except three small wrappers in
`src/text.rs` around `String::push`, `String::pop` and `str::to_lowercase`: their contracts
restate what the standard library documents and are trusted, not proved.

## Layout

- `src/label.rs`, `planner.rs`, `filter.rs`, `session.rs` — vimium-style labels (prefix-free,
  shortest labels to the best-ranked hints), prefix filtering and the hint session state machine.
- `src/dedupe.rs`, `geom.rs`, `anchor.rs`, `fnv.rs` — merging redundant accessibility rows,
  rectangle arithmetic, invoke anchors, FNV-1a fingerprints.
- `src/config.rs`, `startup.rs` — the configuration model, its defaults, file discovery and the
  enumeration options derived from it.
- `src/input.rs`, `chord.rs` — hotkey chord parsing and the keyboard-hook decisions of hint mode.
- `src/strategy.rs`, `ladder.rs`, `collect.rs`, `fallback.rs`, `pattern.rs`, `invoke.rs`,
  `click.rs` — the enumeration ladder (UI Automation, MSAA, child windows), per-node filters,
  interaction classification and the ladder of interactions tried on invoke.
- `src/render.rs`, `controller.rs` — overlay decisions (monitor split, session gating) and the
  application's reaction to hotkeys, plans and typed keys.
- `app/` — the command line, `config.toml` reading and writing, and the floating-point layout
  and ranking code. The Win32 / UI Automation / Direct2D calls themselves are Windows-only and
  are not part of this crate.
- `tests/` — scenario and regression tests run against the compiled library.
