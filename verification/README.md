# acwj_rs

A compiler for a small subset of C, written in Verus. It scans and parses a
source text into ASTs (Pratt parsing for expressions, recursive descent for
statements), keeps a symbol table, and generates assembly for x86-64 or ARMv7.
A small evaluator for arithmetic trees stored in an index-linked `Tree` is
included as well.

Layout:

- `src/scan.rs` – the scanner, specified by a lexer over the input bytes.
- `src/grammar.rs` – the grammar as spec functions; `src/expr.rs` and
  `src/pars.rs` implement it and are proved equal to it.
- `src/sym.rs`, `src/ast.rs` – symbol table and AST.
- `src/cgen.rs` – the code generator, specified by the requests it makes of a
  back end and the registers it hands each of them; `src/cg.rs`,
  `src/cg_arm32.rs`, `src/dummy_cg.rs` – back ends with the exact text they
  emit, which stays the rendering of their request log (`x86_render`,
  `arm_render`).
- `src/driver.rs` – the whole pipeline, from source bytes to a back end.
- `src/tree.rs`, `src/interp.rs` – index-linked trees and their evaluator.
- `src/laws.rs` – properties that span several functions.
- `app/main.rs` – the command-line program: arguments, files, messages.
