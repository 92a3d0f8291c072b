use cljrust::lexer::{Lexer, Token};

fn lex(src: &str) -> Result<Vec<Token>, String> {
    let mut lexer = Lexer::new(src);
    lexer.tokenize().map(|ts| ts.into_iter().map(|t| t.token).collect())
}

#[test]
fn test_basic_tokens() {
    let mut lex = Lexer::new("(defn add [a b] (+ a b))");
    let tokens = lex.tokenize().unwrap();
    assert!(matches!(tokens[0].token, Token::LParen));
    assert!(matches!(&tokens[1].token, Token::Symbol(s) if s == "defn"));
    assert!(matches!(&tokens[2].token, Token::Symbol(s) if s == "add"));
    assert!(matches!(tokens[3].token, Token::LBracket));
}

#[test]
fn test_numbers() {
    let mut lex = Lexer::new("42 3.14 -7");
    let tokens = lex.tokenize().unwrap();
    assert!(matches!(tokens[0].token, Token::Integer(42)));
    assert!(matches!(&tokens[1].token, Token::Float(f) if (f.parse::<f64>().unwrap() - 3.14).abs() < 0.001));
    assert!(matches!(tokens[2].token, Token::Integer(-7)));
}

#[test]
fn test_string_and_keyword() {
    let mut lex = Lexer::new(r#""hello" :world"#);
    let tokens = lex.tokenize().unwrap();
    assert!(matches!(&tokens[0].token, Token::String(s) if s == "hello"));
    assert!(matches!(&tokens[1].token, Token::Keyword(s) if s == "world"));
}

#[test]
fn lexer_spans_count_lines_and_columns() {
    let mut lex = Lexer::new("(a\n  b)");
    let tokens = lex.tokenize().unwrap();
    let spans: Vec<(usize, usize)> = tokens.iter().map(|t| (t.span.line, t.span.col)).collect();
    assert_eq!(spans, vec![(1, 1), (1, 2), (2, 3), (2, 4)]);
}

#[test]
fn lexer_skips_comments_and_commas() {
    let toks = lex("; a comment\n(a, b) ; trailing\n").unwrap();
    assert_eq!(toks.len(), 4);
    assert!(matches!(&toks[1], Token::Symbol(s) if s == "a"));
    assert!(matches!(&toks[2], Token::Symbol(s) if s == "b"));
}

#[test]
fn lexer_whitespace_only_gives_no_tokens() {
    assert_eq!(lex("   \n\t ,, ; nothing here").unwrap().len(), 0);
    assert_eq!(lex("").unwrap().len(), 0);
}

#[test]
fn lexer_literals() {
    let toks = lex(r#"true false nil \a \newline "a\"b\n""#).unwrap();
    assert!(matches!(toks[0], Token::Bool(true)));
    assert!(matches!(toks[1], Token::Bool(false)));
    assert!(matches!(toks[2], Token::Nil));
    assert!(matches!(toks[3], Token::Char('a')));
    assert!(matches!(toks[4], Token::Char('\n')));
    assert!(matches!(&toks[5], Token::String(s) if s == "a\"b\n"));
}

#[test]
fn lexer_punctuation() {
    let toks = lex("& @ # -> => . .. ..= ~ '").unwrap();
    assert!(matches!(toks[0], Token::Ampersand));
    assert!(matches!(toks[1], Token::At));
    assert!(matches!(toks[2], Token::Hash));
    assert!(matches!(toks[3], Token::Arrow));
    assert!(matches!(toks[4], Token::FatArrow));
    assert!(matches!(toks[5], Token::Dot));
    assert!(matches!(toks[6], Token::DotDot));
    assert!(matches!(toks[7], Token::DotDotEq));
    assert!(matches!(toks[8], Token::Tilde));
    assert!(matches!(toks[9], Token::Quote));
}

#[test]
fn lexer_symbols_keep_paths_and_fields() {
    let toks = lex("std::collections::HashMap is-valid? self.radius .push").unwrap();
    assert!(matches!(&toks[0], Token::Symbol(s) if s == "std::collections::HashMap"));
    assert!(matches!(&toks[1], Token::Symbol(s) if s == "is-valid?"));
    assert!(matches!(&toks[2], Token::Symbol(s) if s == "self.radius"));
    assert!(matches!(&toks[3], Token::Symbol(s) if s == ".push"));
}

#[test]
fn lexer_number_forms() {
    let toks = lex("1_000 2.5e3 -0.5 - -x").unwrap();
    assert!(matches!(toks[0], Token::Integer(1000)));
    assert!(matches!(&toks[1], Token::Float(f) if f.parse::<f64>().unwrap() == 2500.0));
    assert!(matches!(&toks[2], Token::Float(f) if f.parse::<f64>().unwrap() == -0.5));
    assert!(matches!(&toks[3], Token::Symbol(s) if s == "-"));
    assert!(matches!(&toks[4], Token::Symbol(s) if s == "-x"));
}

#[test]
fn lexer_unterminated_string_is_an_error() {
    let e = lex("\"abc").unwrap_err();
    assert!(e.contains("Unterminated string"), "{}", e);
}

#[test]
fn lexer_integer_out_of_range_is_an_error() {
    assert!(lex("99999999999999999999").is_err());
}

#[test]
fn spans_count_line_breaks_and_columns() {
    let mut lexer = Lexer::new("(a\n  bc)");
    let toks = lexer.tokenize().unwrap();
    let spans: Vec<(usize, usize)> = toks.iter().map(|t| (t.span.line, t.span.col)).collect();
    assert_eq!(spans, vec![(1, 1), (1, 2), (2, 3), (2, 5)]);
}

#[test]
fn unicode_white_space_separates_tokens() {
    let spaces: Vec<char> = (0u32..=0x10FFFF).filter_map(char::from_u32).filter(|c| c.is_whitespace()).collect();
    assert_eq!(spaces.len(), 25);
    for c in spaces {
        let src = format!("a{}b", c);
        let toks = lex(&src).unwrap();
        assert_eq!(toks.len(), 2, "{:?}", c);
        assert!(matches!(&toks[0], Token::Symbol(s) if s == "a"));
        assert!(matches!(&toks[1], Token::Symbol(s) if s == "b"));
    }
    assert!(lex("a\u{200B}b").is_err());
}
