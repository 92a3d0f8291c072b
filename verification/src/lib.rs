//! A compiler from a Clojure-flavoured S-expression syntax to Rust source.
pub mod ast;
pub mod codegen;
pub mod codegen_spec;
pub mod grammar;
pub mod lexer;
pub mod parser;
pub mod pipeline;
pub mod repl;
pub mod text;
