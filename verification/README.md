# alescript

The lexer and parser of alescript, a small language in which values ferment
over time, verified with Verus; and the program that runs alescript files.

- `src/token.rs`: tokens, their kinds, the keyword table, and how a token is
  shown in messages.
- `src/lexer.rs`: the lexer as a state machine (`LexState`, `lex_step`,
  `lex_all`), its executable form `Lexer`, and the laws of its token stream
  (one EOF at the end, balanced INDENT/DEDENT, well-shaped identifiers and
  numerals, a comment's text being the trimmed rest of its line).
- `src/numeral.rs`: how a numeral reads in messages, in the form `{:?}`
  prints an `f64`, and which numerals read as zero or infinity.  The digits
  shown are the numeral's own; the rounding an `f64` applies beyond 15
  significant digits or in the subnormal range is not modelled.
- `src/ast.rs`: the syntax tree and its views.
- `src/parser.rs`: the grammar as spec functions over the token stream, the
  recursive-descent `Parser` proved to follow it, and `parse_source`.
- `src/runtime_error.rs`: the error a run reports.
- `src/storage.rs`: the scopes of local variables a run keeps (read after
  write, scopes that do not leak their bindings) and 1-based barrel access.
- `src/text.rs`: string helpers and the standard-library calls the proofs
  take on trust (Unicode classes, `trim`, `escape_debug`, `String::push`).
- `app/`: the brewing runtime and the interpreter, which compute with
  floating-point numbers, and the command-line and WebAssembly entry points.

Numbers stay the decimal numerals they were written as until the program
runs; the interpreter turns them into `f64` values.
