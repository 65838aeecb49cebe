# galyak

An interpreter for Galyak, a small toy programming language whose keywords are
Ukrainian slang (`штріх цифри а = 2 + 2 крч`, `базар(а)`).

The library under `src/` is verified with Verus:

- `pre` — the lexer (`Lexer`, `tokenize`), specified by `next_tok` / `lex_file`
  over the characters of the file.
- `compiler` — tokens, the syntax tree, and the recursive-descent parser,
  specified by the spec parser `p_statement_list` and its helpers over the
  token sequence.
- `runtime` — types, the frames of variables (`GlkStack`, a sorted
  hash-keyed map per frame, with lookups from the innermost frame outward),
  function declarations and the decisions the interpreter takes on a syntax
  tree.
- `program` — the text of programs, error messages and error reports.
- `error_mgr` — `CompilationError`: reports of compilation errors for tokens
  whose lines count from 0, framed with `|`.

`app/` holds the command line and the interpreter loop: the language's numbers
are floating-point values, and the interpreter prints and reads lines while it
runs, so that part is ordinary Rust built on the library.
