//! A small compiler front end: a lexer that turns source text into tokens,
//! a recursive-descent parser that builds an abstract syntax tree, and a
//! pass manager that runs visitor passes (among them a lowering pass that
//! drives an opaque code-generation target) over the tree, collecting
//! diagnostics along the way.

pub mod ast;
pub mod block;
pub mod diagnostic;
pub mod emitter;
pub mod expr;
pub mod external;
pub mod function;
pub mod grammar;
pub mod int_kind;
pub mod interner;
pub mod lexer;
pub mod lowering_pass;
pub mod namespace;
pub mod node;
pub mod parser;
pub mod pass;
pub mod pass_manager;
pub mod prototype;
pub mod target;
pub mod token;
pub mod void_kind;
