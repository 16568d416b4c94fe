# tinyview

Ephemeral CLI WebView runtime: render Web UI from a pipe, no server, no port,
no temp file. This crate is its verified core, written in Verus.

## Layout

- `src/` — the library, verified with Verus. Its few calls into the standard
  library's path handling, `Debug` formatting and `serde_json` go through
  small trusted wrappers whose contracts state what those calls do:
  - `text` — character-level search, case folding, replace-all.
  - `strmap` — string-keyed map kept in ascending key order.
  - `template` — template resolution (explicit > extension > default > raw),
    built-in composition, the `window.__TINYVIEW__` JSON literal and the
    single marker substitution.
  - `script` — keeping the injected literal safe inside an inline `<script>`.
  - `reading` — reading the injected literal back as JSON, and the law that
    it reads back as the data it was built from.
  - `webview` — the Content-Security-Policy, its injection, the in-document
    fetch grant, the navigation policy.
  - `runtime` — input source, raw fast path, `--param` parsing and merging,
    window size, permissions, event-loop reactions.
  - `config` — configuration data and the config-root choice.
  - `detach` — the detached child's command line and environment.
  - `watch` — which file events concern the watched source, re-composition.
  - `shortcuts`, `menu` — the menu layout and its proved properties.
  - `selftest` — scenarios, run state and verdict of the live permission
    self-test.
- `app/` — the `tinyview` program: argument parsing, file and stdin reading,
  config loading, window, WebView, file watcher, process spawning.
- `tests/` — tests of the library.
