# tldr_ast

Structural facts about source files in nineteen languages: imports, functions,
classes, constants, documentation, and which functions of a file call which.

The library reads a file off its syntax tree. `capture` copies a `tree_sitter`
parse into plain data (`tree::SyntaxTree`), on which everything else works.

| Path | What it holds |
| --- | --- |
| `src/grammars.rs`, `src/parsing.rs` | grammars, and the parse of a source text |
| `src/tree.rs`, `src/capture.rs` | syntax trees, and how they are read from a parse |
| `src/walk.rs`, `src/nodes.rs`, `src/lists.rs` | ways to walk a tree and to gather items |
| `src/text.rs`, `src/docs.rs`, `src/names.rs`, `src/order.rs` | texts, comments, names, alphabetical order |
| `src/imports/`, `src/lang/`, `src/constants/` | the rules of each language |
| `src/call_graph.rs`, `src/grouping.rs`, `src/natspec.rs` | calls, methods of types, tags of doc comments |
| `src/extract.rs`, `src/files.rs`, `src/paths.rs` | all that is reported of a file, and when nothing is |
| `src/laws/` | what holds of all files |
| `app/` | reading and resolving files |
