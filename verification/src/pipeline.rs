//! The stages joined: from tokens to the forms of a program, and from
//! tokens to its Rust text.
use vstd::prelude::*;
use crate::ast::{SpecProgram, TopLevel};
use crate::codegen::CodeGen;
use crate::codegen_spec::program_text;
use crate::grammar::program_items;
use crate::lexer::SpannedToken;
use crate::parser::{toks_view, Parser};

verus! {

/// The forms that `tokens` spell, or the parser's error.
pub fn parse_forms(tokens: Vec<SpannedToken>) -> (r: Result<Vec<TopLevel>, String>)
    ensures
        match program_items(toks_view(tokens@), 0, Seq::empty()) {
            Ok(items) => r matches Ok(v) && crate::ast::toplevels_view(v@) == items,
            Err(m) => r matches Err(e) && e@ == m,
        },
{
    let mut parser = Parser::new(tokens);
    let program = parser.parse_program()?;
    Ok(program.items)
}

/// The Rust text of the program that `tokens` spell, or the parser's error.
pub fn compile_tokens(tokens: Vec<SpannedToken>) -> (r: Result<String, String>)
    ensures
        match program_items(toks_view(tokens@), 0, Seq::empty()) {
            Ok(items) => r matches Ok(s) && s@ == program_text(SpecProgram { items }),
            Err(m) => r matches Err(e) && e@ == m,
        },
{
    let mut parser = Parser::new(tokens);
    let program = parser.parse_program()?;
    let mut codegen = CodeGen::new();
    Ok(codegen.generate(&program))
}

} // verus!
