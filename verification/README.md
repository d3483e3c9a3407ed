# crease

A small scripting language (`set`, `del`, `in`, `out`, `if`/`else`/`endif`,
`while`/`endwhile`, integers, floats, booleans, strings and arrays) with a
lexer, a recursive-descent parser and a tree-walking interpreter, each proved
against a mathematical model with Verus.

## Layout

- `src/text.rs`: decimal and boolean text, and the few calls into `std` that
  render or decode text.
- `src/token.rs`, `src/ast.rs`, `src/error.rs`: the data of the language and its
  views.
- `src/lexer.rs`: the lexer as a spec function on bytes (`lex_token`) and the
  executable `Lexer` proved to follow it.
- `src/grammar.rs`, `src/parser.rs`: the grammar as spec functions over the token
  stream and the executable `Parser` proved to follow it; `parse_source` ties a
  source string to the grammar.
- `src/value.rs`, `src/semantics.rs`, `src/interpreter.rs`: run-time values, the
  meaning of expressions and statements, and the executable `Interpreter`.
  Reading input lines and float arithmetic are done by the host: the interpreter
  stops and names what it needs, and the host runs it again with the answers.
  The library trims each input line (`trim_text`) and gives the line that
  `out` writes for a value (`output_line`).
- `src/laws.rs`: properties proved of the language as a whole.
- `app/main.rs`: the program that feeds input lines and float answers.

## Variables

The interpreter keeps its variables in a `Vec` of name and value pairs, with
the invariant that no name occurs twice, and views it as a `Map`. vstd's
specifications of `std::collections::HashMap` hold only for key types that
satisfy `obeys_key_model`, which vstd establishes for integers and `bool` but
not for `String`; establishing it for `String` would take an assumption, so a
`HashMap<String, Value>` would give the interpreter's contracts nothing to
stand on.
