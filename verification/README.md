# cljrust

A compiler from Clojure-style S-expressions to Rust source, with an
interactive loop that compiles and runs each expression.

The library under `src/` is verified with Verus:

- `lexer.rs`: the tokenizer, specified by `lex_all` over the input's characters;
- `grammar.rs`: the grammar as spec functions over the token sequence;
- `parser.rs`: the recursive-descent parser, proved to build exactly what
  `grammar` describes (or to fail with the same message);
- `codegen_spec.rs` / `codegen.rs`: the Rust text of each piece of syntax, and
  the generator proved to write exactly that text;
- `pipeline.rs`: the stages joined, from tokens to forms and to Rust text;
- `repl.rs`: the loop's own logic (what each line leads to, bracket balance,
  accumulated imports and definitions, the program that evaluates an input,
  compiler-message cleanup);
- `text.rs`: string helpers and the few calls into `std` whose results are
  named rather than proved.

`app/` holds the command line and the loop's I/O (files, `rustc`, terminal);
it reads each line and carries out the action that `repl::loop_step` decides.
