# vuer

A security-focused static analyser for Vue single-file components,
written in Verus: the extraction of the blocks, the template parser, the
taint analysis, the rules, the suppression comments, the filters and the
report forms are verified against their contracts.

## Layout

- `src/` — the verified library.
  - `parser/` — splitting a `.vue` file into its blocks (`mod.rs`), the
    template parser (`template/`), and the script tree: oxc parses the
    script and serialises it to ESTree JSON, read back into a plain
    `Json` tree (`script.rs`, `estree.rs`).
  - `taint/` — the data-flow facts: which expressions carry untrusted
    data, and the flow from source to sink.
  - `visitor/` — the document-order walks over the template and the
    script tree that the rules run on.
  - `rules/` — one file per rule; `registry.rs` holds the registered
    rules, their ids and the laws of lookup and selection.
  - `suppression.rs` — `vuer-ignore[...]` comments.
  - `scanner.rs` — scanning one file into violation records.
  - `config.rs`, `cli.rs` — configuration values, the effective filters
    of a run, and its exit code.
  - `report/` — the rule list, the minimal, pretty and summary forms,
    and the SARIF 2.1.0 log.
- `app/` — the command: arguments, configuration discovery and YAML,
  reading files and directories, JSON and SARIF serialisation, printing.
- `tests/` — the test suites, run against the compiled library.
