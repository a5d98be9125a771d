// An interpreter for a small expression language: a scanner, a precedence-climbing
// parser and a tree-walking evaluator with lexically scoped environments. Each stage is
// stated as spec functions (`lexer::scan`, the `grammar` module, the `semantics` module)
// and the executable code is proved to compute exactly what they say.

// Text helpers and the character classes the scanner relies on.
pub mod text;
// Token kinds and reserved words.
pub mod token;
// The scanner.
pub mod lexer;
// The syntax tree and its model.
pub mod ast;
// The source-like rendering of trees.
pub mod render;
// Copies of trees.
pub mod copy;
// Runtime values.
pub mod object;
// Scopes of bindings.
pub mod environment;
// What evaluation means.
pub mod semantics;
// The evaluator.
pub mod evaluator;
// What parsing means.
pub mod grammar;
// The parser.
pub mod parser;
// Facts about the language, proved from the semantics.
pub mod laws;
