# r2n

The front end of the R2N compiler (React/JSX-style sources compiled for a
runtime without JavaScript), written in Verus and verified.

- `src/text.rs` — character-level helpers (classification, UTF-8 widths,
  decimal numerals, string building) with their specifications.
- `src/ast/` — the source AST, its well-formedness invariants (`wf.rs`),
  structural copies, the one-line text of expressions and patterns, and the
  derived `Debug` text of expressions and statements (`debug.rs`).
- `src/parser/` — the lexer, the recursive-descent parser, parse errors with
  rendered carets, and parsing with error recovery. Every successful parse
  yields a well-formed program; every error points into the source.
- `src/ir/` — the JS IR, React IR and runtime artifact types, the IR
  operators and their correspondence with the source operators, artifact
  stamps, the walks over the IR (free variables, renaming a variable,
  dropping `StrictMode` wrappers) and lowering: expressions, statements and
  patterns (`lowering.rs`), elements and render positions (`element.rs`),
  components, classes, functions and generators (`decls.rs`), and whole
  programs to a runtime template (`template.rs`). Each lowering function
  fails exactly when its input uses a form it does not lower.
- `src/compiler/` — compilation (`compile_source`) and diagnostics (parse
  errors, then the lowering error of a clean parse), module resolution
  (in-memory resolver, filesystem candidate paths, path normalization and
  its idempotence, external specifiers), depth-first module-graph discovery
  with cycle detection, canonical dynamic imports, link planning (global
  component table, export surfaces and each module's sorted component
  exports, import bindings that stay inside the table, the root component)
  and the linked artifact (`artifact.rs`).
- `tests/` — behaviour tests of the library.
- `app/` — the `r2n` command: `check` prints every diagnostic of a file,
  `build` compiles one file, `link` links a multi-module program from the
  filesystem.
