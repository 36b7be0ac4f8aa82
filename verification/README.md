# coconut

A small compiler framework and a demo compiler built on it.

- `src/traversal.rs`: the traversal generator. From the structs and enums of
  an AST module it decides which fields a traversal descends into, the match
  arms of each enum's traversal, and draws the module as a DOT graph.
- `src/ast.rs`: the demo language's syntax tree and its mathematical model.
- `src/demo.rs`: the passes (renaming identifiers, summing integer literals,
  removing self-subtractions) and their laws.
- `src/parser.rs`: the arguments of the C preprocessor and the syntax-error
  report.
- `app/`: the command line, the processes and streams, tree-sitter and the
  token-level code generation with syn and quote.
