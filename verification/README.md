# runnerguard

Static analysis of MuleSoft 4 projects, verified with Verus.

- `src/parser/` reads Mule XML (through `quick-xml`) into a namespace-aware
  flow model with per-flow facts, resolves `flow-ref`s and builds the
  project index. What `quick-xml` reports for the `k`-th event of a text
  is named by uninterpreted spec functions (`src/parser/reader.rs`); the
  document a file gives is stated exactly in terms of those tokens.
- `src/engine/` compiles a JSON rule set against the fact-path whitelist,
  enumerates candidate entities, resolves facts, applies the operators and
  emits findings in report order.
- `src/report/` turns a scan result into a report document and renders it
  as Markdown or as a self-contained HTML page.
- `src/tui/` is the state machine of the terminal front-end: pages, panel
  focus, selections, the findings filter, the keymap, and the text each
  panel shows.
- `app/` holds what Verus does not check: reading files, the terminal
  event loop and drawing with Ratatui, JSON text conversion, error types
  with `Display`, and the `xtask` developer commands.

Nearly every function in `src/` carries a contract; the laws the library keeps
(report order and its stability, the pass/fail verdict, the facts of a
flow, the index and the candidates of a rule, filter narrowing, focus
cycling, scroll windows, escaping) are proof functions next to the code they
describe.
