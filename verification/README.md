# typecore

The core of a small dependently typed language with usage-tracked types,
verified with Verus.

- `src/lang.rs`: terms (`Term`, `InnerTerm`, `List`), de Bruijn indexed, each
  with an optional type annotation.
- `src/context.rs`: typing contexts, a map from indices to declarations and
  definitions, with the shifting and substitution operations the checker
  needs.
- `src/eval.rs`: shifting free variables and putting in definitions.
- `src/typing.rs`: the type checker (`check`, and `try_check`, which also
  reports the inputs the checker does not handle), its error type, term
  equality and variable-use counting.
- `src/surface.rs`: the textual syntax and its parser (`parse_text`), whose
  result is fixed by `parse_tree` over the whitespace-separated tokens.

Every function's contract is stated over spec functions in the same file; the
checker's contract is `check_spec`, one case per kind of term.
