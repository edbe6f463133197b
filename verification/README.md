# aci

A codebase indexer and branch differ whose core is written in Verus and proved
against its contracts. It detects source languages, extracts a neutral graph of
files, symbols, imports, exports, calls, references and package dependencies
from each file, and compares the graphs of two Git references into a reviewable
report.

## Layout

- `src/` — the verified library.
  - `model`, `ids`, `span`, `language`, `quality`, `diagnostics`, `paths`,
    `text`, `order`: the graph model, stable ids (BLAKE3), spans, fact quality
    and the text and path functions everything else is stated over.
  - `helpers`: the partition builder every extractor fills; `resolve`: local
    resolution of calls and references.
  - `syntax`: tree-sitter parsing behind small trusted calls, copied into a
    breadth-first node arena (`SyntaxTree`) that the visitors walk.
  - Extractors: `rust_lang`, `ts_scanner` and `ts_tree` (JavaScript and
    TypeScript), `python` and `py_tree`, `brace` and `brace_tree` (C, C++, Go,
    Java, Objective-C), `json` (package manifests). Each tree visitor is
    specified by a recursive spec function over the arena and falls back to its
    line scanner when a parse is skipped.
  - `detect`, `registry`: language detection and the adapter registry.
  - `git_status`, `compare`, `diff_report`, `symbol_identity`, `agent`,
    `diff_text`, `output`, `cli`: the branch diff — parsing `git diff -z`,
    matching symbols and dependencies across the two indexes, impact analysis,
    the agent summary, and the text the command line prints.
- `tests/` — the test suites, run against the compiled library.
- `app/` — the `aci` command line: argument parsing, git processes, worktrees,
  walking and reading the two trees, JSON output and printing.

## Building

The library is checked with Verus (`verus src/lib.rs`); `app/` is ordinary Rust
that depends on it.
