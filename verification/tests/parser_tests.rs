use cljrust::ast::{BinOpKind, Expr, Program, TopLevel, UnaryOpKind};
use cljrust::codegen::CodeGen;
use cljrust::lexer::{Lexer, Span, SpannedToken, Token};
use cljrust::parser::{clj_to_rust_ident, Parser};
use cljrust::pipeline::{compile_tokens, parse_forms};
use cljrust::repl::def_name;

fn tok(token: Token) -> SpannedToken {
    SpannedToken { token, span: Span { line: 1, col: 1 } }
}

fn sym(s: &str) -> SpannedToken {
    tok(Token::Symbol(s.to_string()))
}

fn program(src: &str) -> Program {
    let mut lexer = Lexer::new(src);
    let tokens = lexer.tokenize().unwrap();
    Parser::new(tokens).parse_program().unwrap()
}

#[test]
fn identifiers_become_snake_case() {
    assert_eq!(clj_to_rust_ident("my-fn-name"), "my_fn_name");
    assert_eq!(clj_to_rust_ident("already_snake"), "already_snake");
    assert_eq!(clj_to_rust_ident("-"), "_");
    assert_eq!(clj_to_rust_ident(""), "");
    assert_eq!(clj_to_rust_ident("a--b"), "a__b");
}

#[test]
fn operators_have_their_rust_spelling() {
    let all = [
        (BinOpKind::Add, "+"),
        (BinOpKind::Sub, "-"),
        (BinOpKind::Mul, "*"),
        (BinOpKind::Div, "/"),
        (BinOpKind::Rem, "%"),
        (BinOpKind::Eq, "=="),
        (BinOpKind::NotEq, "!="),
        (BinOpKind::Lt, "<"),
        (BinOpKind::Gt, ">"),
        (BinOpKind::LtEq, "<="),
        (BinOpKind::GtEq, ">="),
        (BinOpKind::And, "&&"),
        (BinOpKind::Or, "||"),
        (BinOpKind::BitAnd, "&"),
        (BinOpKind::BitOr, "|"),
        (BinOpKind::BitXor, "^"),
        (BinOpKind::Shl, "<<"),
        (BinOpKind::Shr, ">>"),
    ];
    for (op, text) in all {
        assert_eq!(op.to_rust(), text);
    }
    assert_eq!(UnaryOpKind::Not.to_rust(), "!");
    assert_eq!(UnaryOpKind::Neg.to_rust(), "-");
}

#[test]
fn one_expression_is_parsed() {
    let toks = vec![tok(Token::LParen), sym("+"), tok(Token::Integer(1)), tok(Token::Integer(2)), tok(Token::RParen)];
    let mut p = Parser::new(toks);
    match p.parse_expr().unwrap() {
        Expr::BinOp { op, left, right } => {
            assert_eq!(op, BinOpKind::Add);
            assert!(matches!(*left, Expr::Integer(1)));
            assert!(matches!(*right, Expr::Integer(2)));
        }
        other => panic!("unexpected {:?}", other),
    }
    assert_eq!(p.parse_expr().unwrap_err(), "Unexpected token None at line 0");
}

#[test]
fn a_bare_symbol_is_an_expression() {
    let mut p = Parser::new(vec![sym("my-var")]);
    match p.parse_expr().unwrap() {
        Expr::Symbol(s) => assert_eq!(s, "my_var"),
        other => panic!("unexpected {:?}", other),
    }
}

#[test]
fn attribute_forms_wrap_the_next_item() {
    let toks = vec![
        tok(Token::LParen),
        sym("#!"),
        sym("allow"),
        tok(Token::LParen),
        sym("dead-code"),
        sym("unused"),
        tok(Token::RParen),
        tok(Token::LParen),
        sym("defn"),
        sym("f"),
        tok(Token::LBracket),
        tok(Token::RBracket),
        tok(Token::Integer(1)),
        tok(Token::RParen),
        tok(Token::RParen),
    ];
    let prog = Parser::new(toks).parse_program().unwrap();
    assert_eq!(prog.items.len(), 1);
    match &prog.items[0] {
        TopLevel::Attr(a, inner) => {
            assert_eq!(a, "allow(dead-code, unused)");
            assert!(matches!(**inner, TopLevel::Defn(_)));
            assert_eq!(def_name(&prog.items[0]), "f");
        }
        other => panic!("unexpected {:?}", other),
    }
    let mut cg = CodeGen::new();
    assert_eq!(cg.generate(&prog), "#[allow(dead-code, unused)]\npub fn f() {\n    1\n}\n\n");
}

#[test]
fn generating_two_programs_is_generating_their_items_together() {
    let a = program("(defn f [] 1)");
    let b = program("(use std::io) (+ 1 2)");
    let both = program("(defn f [] 1) (use std::io) (+ 1 2)");
    let mut cg = CodeGen::new();
    cg.generate(&a);
    let separate = cg.generate(&b);
    let together = CodeGen::new().generate(&both);
    assert_eq!(separate, together);
    assert_eq!(together, "pub fn f() {\n    1\n}\n\nuse std::io;\n\n(1 + 2);\n\n");
}

#[test]
fn an_empty_program_generates_nothing() {
    let mut cg = CodeGen::new();
    assert_eq!(cg.generate(&program("  ; only a comment\n")), "");
}

fn tokens(src: &str) -> Vec<SpannedToken> {
    Lexer::new(src).tokenize().unwrap()
}

#[test]
fn tokens_compile_to_rust_text() {
    assert_eq!(compile_tokens(tokens("(defn f [] 1) (+ 1 2)")).unwrap(), "pub fn f() {\n    1\n}\n\n(1 + 2);\n\n");
    assert_eq!(compile_tokens(tokens("(defn f")).unwrap_err(), "Unexpected end of input");
    assert_eq!(compile_tokens(Vec::new()).unwrap(), "");
}

#[test]
fn tokens_parse_to_forms() {
    let forms = parse_forms(tokens("(use std::io) 42")).unwrap();
    assert_eq!(forms.len(), 2);
    assert!(matches!(forms[0], TopLevel::Use(_)));
    assert!(matches!(forms[1], TopLevel::Expr(Expr::Integer(42))));
    assert_eq!(parse_forms(tokens("(defn f (x))")).unwrap_err(), "Expected LBracket, got LParen");
}
