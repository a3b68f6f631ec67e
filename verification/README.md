# piru

The front end of a compiler for a small, strongly typed, C-like language:
a lexer, a recursive-descent parser and a generator of a simple IR. Each
stage is written in Verus and proved to compute what a mathematical model
of it says.

## Layout

- `src/token.rs`, `src/lexer.rs`: tokens and the tokenizer; `lex_at` and
  `tokens_from` are the model of one lexing step and of a whole input.
- `src/text.rs`: character classes and string conversions (the trusted calls
  into the standard library live here).
- `src/numbers.rs`: the integer and float literal grammars of the standard
  library, and an integer reader proved against the first.
- `src/ast.rs`, `src/grammar.rs`, `src/parser.rs`: the syntax tree, the
  grammar as spec functions, and the parser proved to follow it.
- `src/ir.rs`, `src/ir_gen.rs`: the IR and its generator, with the model
  `gen_program` of generation.
- `src/lexer_laws.rs`, `src/lexer_spacing.rs`, `src/parser_laws.rs`,
  `src/ir_laws.rs`: properties that hold across calls and inputs, proved
  over the models.
- `src/memory.rs`: the memory size computed from the command-line options.
- `app/`: the command-line program (argument handling, printing).
- `tests/`: tests of the library on concrete inputs.

Float literals stay as their checked decimal text inside the library; the
program turns them into machine floats (with the `half` crate for `f16`)
when it prints the syntax tree.
