//! Lexer: turns source text into tokens, each with the line and column where
//! it starts.
use vstd::prelude::*;
use crate::text::{char_is_alphabetic, char_is_alphanumeric, char_is_ascii_digit, char_is_whitespace, chars_of, chars_of_string, digit_value, digits_value, int_text, is_digit, push_char, push_str, alphabetic, alphanumeric, spec_is_whitespace, str_eq, string_from_chars, string_of, usize_to_string};

verus! {

/// A token. A float literal holds its digits as written, without `_`
/// separators (for example `3.14`, `1e5`, `-2.5E-3`).
#[derive(Debug, Clone)]
pub enum Token {
    LParen,
    RParen,
    LBracket,
    RBracket,
    LBrace,
    RBrace,
    Symbol(String),
    String(String),
    Integer(i64),
    Float(String),
    Char(char),
    Keyword(String),
    Bool(bool),
    Nil,
    Ampersand,
    At,
    Hash,
    Arrow,
    FatArrow,
    Dot,
    DotDot,
    DotDotEq,
    Tilde,
    Quote,
}

#[derive(Debug, Clone)]
pub struct Span {
    pub line: usize,
    pub col: usize,
}

#[derive(Debug, Clone)]
pub struct SpannedToken {
    pub token: Token,
    pub span: Span,
}

/// The model of a token.
pub enum SpecToken {
    LParen,
    RParen,
    LBracket,
    RBracket,
    LBrace,
    RBrace,
    Symbol(Seq<char>),
    Str(Seq<char>),
    Integer(int),
    Float(Seq<char>),
    Char(char),
    Keyword(Seq<char>),
    Bool(bool),
    Nil,
    Ampersand,
    At,
    Hash,
    Arrow,
    FatArrow,
    Dot,
    DotDot,
    DotDotEq,
    Tilde,
    Quote,
}

/// The model of a token with the line and column where it starts.
pub struct SpecSpanned {
    pub token: SpecToken,
    pub line: int,
    pub col: int,
}

impl View for Token {
    type V = SpecToken;

    open spec fn view(&self) -> SpecToken {
        match self {
            Token::LParen => SpecToken::LParen,
            Token::RParen => SpecToken::RParen,
            Token::LBracket => SpecToken::LBracket,
            Token::RBracket => SpecToken::RBracket,
            Token::LBrace => SpecToken::LBrace,
            Token::RBrace => SpecToken::RBrace,
            Token::Symbol(s) => SpecToken::Symbol(s@),
            Token::String(s) => SpecToken::Str(s@),
            Token::Integer(n) => SpecToken::Integer(*n as int),
            Token::Float(s) => SpecToken::Float(s@),
            Token::Char(c) => SpecToken::Char(*c),
            Token::Keyword(s) => SpecToken::Keyword(s@),
            Token::Bool(b) => SpecToken::Bool(*b),
            Token::Nil => SpecToken::Nil,
            Token::Ampersand => SpecToken::Ampersand,
            Token::At => SpecToken::At,
            Token::Hash => SpecToken::Hash,
            Token::Arrow => SpecToken::Arrow,
            Token::FatArrow => SpecToken::FatArrow,
            Token::Dot => SpecToken::Dot,
            Token::DotDot => SpecToken::DotDot,
            Token::DotDotEq => SpecToken::DotDotEq,
            Token::Tilde => SpecToken::Tilde,
            Token::Quote => SpecToken::Quote,
        }
    }
}

impl View for SpannedToken {
    type V = SpecSpanned;

    open spec fn view(&self) -> SpecSpanned {
        SpecSpanned { token: self.token@, line: self.span.line as int, col: self.span.col as int }
    }
}

impl Token {
    /// A copy of this token.
    pub fn copy(&self) -> (r: Token)
        ensures
            r@ == self@,
    {
        match self {
            Token::LParen => Token::LParen,
            Token::RParen => Token::RParen,
            Token::LBracket => Token::LBracket,
            Token::RBracket => Token::RBracket,
            Token::LBrace => Token::LBrace,
            Token::RBrace => Token::RBrace,
            Token::Symbol(s) => Token::Symbol(s.clone()),
            Token::String(s) => Token::String(s.clone()),
            Token::Integer(n) => Token::Integer(*n),
            Token::Float(s) => Token::Float(s.clone()),
            Token::Char(c) => Token::Char(*c),
            Token::Keyword(s) => Token::Keyword(s.clone()),
            Token::Bool(b) => Token::Bool(*b),
            Token::Nil => Token::Nil,
            Token::Ampersand => Token::Ampersand,
            Token::At => Token::At,
            Token::Hash => Token::Hash,
            Token::Arrow => Token::Arrow,
            Token::FatArrow => Token::FatArrow,
            Token::Dot => Token::Dot,
            Token::DotDot => Token::DotDot,
            Token::DotDotEq => Token::DotDotEq,
            Token::Tilde => Token::Tilde,
            Token::Quote => Token::Quote,
        }
    }
}

// ── Character classes ───────────────────────────────────────────────────

/// A symbol may start with a letter or `_`.
pub open spec fn symbol_start(c: char) -> bool {
    alphabetic(c) || c == '_'
}

/// Characters that may continue a symbol: alphanumeric ones (every
/// alphabetic character among them, so a symbol's first character may also
/// continue it) and some punctuation.
pub open spec fn symbol_char(c: char) -> bool {
    alphabetic(c) || alphanumeric(c) || c == '_' || c == '-' || c == '!' || c == '?' || c == '+' || c == '*'
        || c == '/' || c == '<' || c == '>' || c == '=' || c == '%' || c == '&' || c == '^'
        || c == '|' || c == '~'
}

fn is_symbol_start(c: char) -> (r: bool)
    ensures
        r == symbol_start(c),
        r ==> symbol_char(c),
{
    char_is_alphabetic(c) || c == '_'
}

fn is_symbol_char(c: char) -> (r: bool)
    ensures
        r == symbol_char(c),
{
    char_is_alphanumeric(c) || c == '_' || c == '-' || c == '!' || c == '?' || c == '+' || c == '*'
        || c == '/' || c == '<' || c == '>' || c == '=' || c == '%' || c == '&' || c == '^'
        || c == '|' || c == '~'
}

// ── Model of the lexer ──────────────────────────────────────────────────

/// Where the lexer stands: the index of the next character and the line and
/// column of that character (both counted from 1).
pub struct LexPos {
    pub pos: int,
    pub line: int,
    pub col: int,
}

/// The character `k` places ahead, if there is one.
pub open spec fn peek_at(inp: Seq<char>, st: LexPos, k: int) -> Option<char> {
    if 0 <= st.pos + k < inp.len() {
        Some(inp[st.pos + k])
    } else {
        None
    }
}

/// Moving past one character: a newline starts a new line at column 1.
pub open spec fn adv(inp: Seq<char>, st: LexPos) -> LexPos {
    if 0 <= st.pos < inp.len() {
        if inp[st.pos] == '\n' {
            LexPos { pos: st.pos + 1, line: st.line + 1, col: 1 }
        } else {
            LexPos { pos: st.pos + 1, line: st.line, col: st.col + 1 }
        }
    } else {
        st
    }
}

/// Skipping whitespace, commas and `;` comments (a comment runs up to, not
/// including, the end of its line).
pub open spec fn skip_ws(inp: Seq<char>, st: LexPos, in_comment: bool) -> LexPos
    decreases inp.len() - st.pos, if in_comment { 1int } else { 0int },
{
    if 0 <= st.pos < inp.len() {
        let ch = inp[st.pos];
        if in_comment {
            if ch == '\n' {
                skip_ws(inp, st, false)
            } else {
                skip_ws(inp, adv(inp, st), true)
            }
        } else if spec_is_whitespace(ch) || ch == ',' {
            skip_ws(inp, adv(inp, st), false)
        } else if ch == ';' {
            skip_ws(inp, adv(inp, st), true)
        } else {
            st
        }
    } else {
        st
    }
}

/// Reading symbol characters onto `acc`.
pub open spec fn take_sym(inp: Seq<char>, st: LexPos, acc: Seq<char>) -> (Seq<char>, LexPos)
    decreases inp.len() - st.pos,
{
    if 0 <= st.pos < inp.len() && symbol_char(inp[st.pos]) {
        take_sym(inp, adv(inp, st), acc.push(inp[st.pos]))
    } else {
        (acc, st)
    }
}

/// Reading alphabetic characters onto `acc`.
pub open spec fn take_alpha(inp: Seq<char>, st: LexPos, acc: Seq<char>) -> (Seq<char>, LexPos)
    decreases inp.len() - st.pos,
{
    if 0 <= st.pos < inp.len() && alphabetic(inp[st.pos]) {
        take_alpha(inp, adv(inp, st), acc.push(inp[st.pos]))
    } else {
        (acc, st)
    }
}

/// Reading keyword characters (symbol characters and `/`) onto `acc`.
pub open spec fn take_kw(inp: Seq<char>, st: LexPos, acc: Seq<char>) -> (Seq<char>, LexPos)
    decreases inp.len() - st.pos,
{
    if 0 <= st.pos < inp.len() && (symbol_char(inp[st.pos]) || inp[st.pos] == '/') {
        take_kw(inp, adv(inp, st), acc.push(inp[st.pos]))
    } else {
        (acc, st)
    }
}

/// Reading a symbol's characters onto `acc`; once something has been read,
/// `:` and `.` may continue it too (`Type::method`, `self.field`).
pub open spec fn take_symbol(inp: Seq<char>, st: LexPos, acc: Seq<char>) -> (Seq<char>, LexPos)
    decreases inp.len() - st.pos,
{
    if 0 <= st.pos < inp.len() && (symbol_char(inp[st.pos]) || ((inp[st.pos] == ':'
        || inp[st.pos] == '.') && acc.len() > 0)) {
        take_symbol(inp, adv(inp, st), acc.push(inp[st.pos]))
    } else {
        (acc, st)
    }
}

/// The rest of a string literal, after its opening quote, read onto `acc`.
pub open spec fn lex_string(inp: Seq<char>, st: LexPos, acc: Seq<char>) -> Result<(Seq<char>, LexPos), Seq<char>>
    decreases inp.len() - st.pos,
{
    if 0 <= st.pos < inp.len() {
        let c = inp[st.pos];
        let st1 = adv(inp, st);
        if c == '\\' {
            if 0 <= st1.pos < inp.len() {
                let e = inp[st1.pos];
                let st2 = adv(inp, st1);
                if e == 'n' {
                    lex_string(inp, st2, acc.push('\n'))
                } else if e == 't' {
                    lex_string(inp, st2, acc.push('\t'))
                } else if e == 'r' {
                    lex_string(inp, st2, acc.push('\r'))
                } else if e == '\\' {
                    lex_string(inp, st2, acc.push('\\'))
                } else if e == '"' {
                    lex_string(inp, st2, acc.push('"'))
                } else if e == '0' {
                    lex_string(inp, st2, acc.push('\0'))
                } else {
                    lex_string(inp, st2, acc.push('\\').push(e))
                }
            } else {
                Err("Unterminated escape in string"@)
            }
        } else if c == '"' {
            Ok((acc, st1))
        } else {
            lex_string(inp, st1, acc.push(c))
        }
    } else {
        Err("Unterminated string literal"@)
    }
}

/// A word of one ASCII character (one byte long).
pub open spec fn one_byte(w: Seq<char>) -> bool {
    w.len() == 1 && (w[0] as u32) < 128
}

/// A character literal, starting at its backslash.
pub open spec fn lex_char(inp: Seq<char>, st: LexPos) -> Result<(SpecToken, LexPos), Seq<char>> {
    let st1 = adv(inp, st);
    match peek_at(inp, st1, 0) {
        Some(c) => {
            if c == 'n' && (match peek_at(inp, st1, 1) {
                Some(d) => !symbol_char(d),
                None => true,
            }) {
                let (w, st2) = take_alpha(inp, st1, Seq::empty());
                if w == "newline"@ {
                    Ok((SpecToken::Char('\n'), st2))
                } else if w == "n"@ {
                    Ok((SpecToken::Char('n'), st2))
                } else {
                    Ok((SpecToken::Char(w[0]), st2))
                }
            } else {
                let st2 = adv(inp, st1);
                if alphabetic(c) {
                    let (w, st3) = take_alpha(inp, st2, seq![c]);
                    if w == "space"@ {
                        Ok((SpecToken::Char(' '), st3))
                    } else if w == "tab"@ {
                        Ok((SpecToken::Char('\t'), st3))
                    } else if w == "newline"@ {
                        Ok((SpecToken::Char('\n'), st3))
                    } else if w == "return"@ {
                        Ok((SpecToken::Char('\r'), st3))
                    } else if one_byte(w) {
                        Ok((SpecToken::Char(w[0]), st3))
                    } else {
                        Err("Unknown character literal: \\"@ + w)
                    }
                } else {
                    Ok((SpecToken::Char(c), st2))
                }
            }
        },
        None => Err("Unexpected end of input after \\"@),
    }
}

/// A keyword, starting at its colon. A colon with no name after it is the
/// symbol `:`, which separates a name from its type (`x : i32`).
pub open spec fn lex_keyword(inp: Seq<char>, st: LexPos) -> Result<(SpecToken, LexPos), Seq<char>> {
    let (name, st1) = take_kw(inp, adv(inp, st), Seq::empty());
    if name.len() == 0 {
        Ok((SpecToken::Symbol(":"@), st1))
    } else {
        Ok((SpecToken::Keyword(name), st1))
    }
}

/// The digits, `_`, `.`, exponent marks and signs of a number, read onto
/// `acc`; the flag tells whether a fraction or an exponent has been seen.
pub open spec fn take_number(inp: Seq<char>, st: LexPos, acc: Seq<char>, is_float: bool) -> (Seq<char>, bool, LexPos)
    decreases inp.len() - st.pos,
{
    if 0 <= st.pos < inp.len() {
        let c = inp[st.pos];
        let st1 = adv(inp, st);
        if is_digit(c) || c == '_' {
            take_number(inp, st1, acc.push(c), is_float)
        } else if c == '.' && !is_float && (match peek_at(inp, st, 1) {
            Some(d) => is_digit(d),
            None => false,
        }) {
            take_number(inp, st1, acc.push(c), true)
        } else if c == 'e' || c == 'E' {
            if 0 <= st1.pos < inp.len() && (inp[st1.pos] == '+' || inp[st1.pos] == '-') {
                take_number(inp, adv(inp, st1), acc.push(c).push(inp[st1.pos]), true)
            } else {
                take_number(inp, st1, acc.push(c), true)
            }
        } else {
            (acc, is_float, st)
        }
    } else {
        (acc, is_float, st)
    }
}

/// `s` without its `_` separators.
pub open spec fn strip_underscores(s: Seq<char>) -> Seq<char>
    decreases s.len(),
{
    if s.len() == 0 {
        s
    } else if s.last() == '_' {
        strip_underscores(s.drop_last())
    } else {
        strip_underscores(s.drop_last()).push(s.last())
    }
}

/// One step of the recogniser of decimal float literals
/// (`[+-]? (digits [. digits?] | . digits) ([eE] [+-]? digits)?`).
/// States: 0 start, 1 after the sign, 2 in the integer digits, 3 after a
/// leading `.`, 4 in the fraction, 5 after `e`, 6 after the exponent's sign,
/// 7 in the exponent's digits, 8 rejected.
pub open spec fn float_step(state: int, c: char) -> int {
    if state == 0 {
        if c == '+' || c == '-' { 1 } else if is_digit(c) { 2 } else if c == '.' { 3 } else { 8 }
    } else if state == 1 {
        if is_digit(c) { 2 } else if c == '.' { 3 } else { 8 }
    } else if state == 2 {
        if is_digit(c) { 2 } else if c == '.' { 4 } else if c == 'e' || c == 'E' { 5 } else { 8 }
    } else if state == 3 {
        if is_digit(c) { 4 } else { 8 }
    } else if state == 4 {
        if is_digit(c) { 4 } else if c == 'e' || c == 'E' { 5 } else { 8 }
    } else if state == 5 {
        if c == '+' || c == '-' { 6 } else if is_digit(c) { 7 } else { 8 }
    } else if state == 6 || state == 7 {
        if is_digit(c) { 7 } else { 8 }
    } else {
        8
    }
}

pub open spec fn float_state(s: Seq<char>) -> int
    decreases s.len(),
{
    if s.len() == 0 {
        0
    } else {
        float_step(float_state(s.drop_last()), s.last())
    }
}

/// `s` is a decimal float literal that `f64` parsing accepts.
pub open spec fn float_text_ok(s: Seq<char>) -> bool {
    let q = float_state(s);
    q == 2 || q == 4 || q == 7
}

/// `s` without a leading sign.
pub open spec fn sign_stripped(s: Seq<char>) -> Seq<char> {
    if s.len() > 0 && (s[0] == '-' || s[0] == '+') { s.drop_first() } else { s }
}

/// Every character of `s` is a decimal digit.
pub open spec fn all_digits(s: Seq<char>) -> bool {
    forall|i: int| 0 <= i < s.len() ==> is_digit(#[trigger] s[i])
}

/// The result of parsing `s` as an `i64` (the error is the parse error's message).
pub open spec fn parse_i64(s: Seq<char>) -> Result<int, Seq<char>> {
    if s.len() == 0 {
        Err("cannot parse integer from empty string"@)
    } else {
        let neg = s[0] == '-';
        let ds = sign_stripped(s);
        if ds.len() == 0 || !all_digits(ds) {
            Err("invalid digit found in string"@)
        } else if neg {
            if digits_value(ds) > 0x8000_0000_0000_0000 {
                Err("number too small to fit in target type"@)
            } else {
                Ok(-(digits_value(ds) as int))
            }
        } else {
            if digits_value(ds) > 0x7fff_ffff_ffff_ffff {
                Err("number too large to fit in target type"@)
            } else {
                Ok(digits_value(ds) as int)
            }
        }
    }
}

/// A number starts here: a digit, or `-` followed by a digit.
pub open spec fn number_start(inp: Seq<char>, st: LexPos) -> bool {
    ||| is_digit(inp[st.pos])
    ||| (inp[st.pos] == '-' && (match peek_at(inp, st, 1) {
        Some(d) => is_digit(d),
        None => false,
    }))
}

/// A number literal, starting at its first character (`-` or a digit).
pub open spec fn lex_number(inp: Seq<char>, st: LexPos) -> Result<(SpecToken, LexPos), Seq<char>> {
    let (s, f, st1) = if peek_at(inp, st, 0) == Some('-') {
        take_number(inp, adv(inp, st), seq!['-'], false)
    } else {
        take_number(inp, st, Seq::empty(), false)
    };
    let clean = strip_underscores(s);
    if f {
        if float_text_ok(clean) {
            Ok((SpecToken::Float(clean), st1))
        } else {
            Err("Invalid float '"@ + s + "': invalid float literal"@)
        }
    } else {
        match parse_i64(clean) {
            Ok(v) => Ok((SpecToken::Integer(v), st1)),
            Err(m) => Err("Invalid integer '"@ + s + "': "@ + m),
        }
    }
}

/// A symbol (or `true`, `false`, `nil`), starting at its first character.
pub open spec fn lex_symbol(inp: Seq<char>, st: LexPos) -> (SpecToken, LexPos) {
    let (s, st1) = take_symbol(inp, st, Seq::empty());
    if s == "true"@ {
        (SpecToken::Bool(true), st1)
    } else if s == "false"@ {
        (SpecToken::Bool(false), st1)
    } else if s == "nil"@ {
        (SpecToken::Nil, st1)
    } else {
        (SpecToken::Symbol(s), st1)
    }
}

/// The token that starts at `st` (which is not at the end of the input).
pub open spec fn lex_token(inp: Seq<char>, st: LexPos) -> Result<(SpecToken, LexPos), Seq<char>> {
    let ch = inp[st.pos];
    let st1 = adv(inp, st);
    if ch == '(' {
        Ok((SpecToken::LParen, st1))
    } else if ch == ')' {
        Ok((SpecToken::RParen, st1))
    } else if ch == '[' {
        Ok((SpecToken::LBracket, st1))
    } else if ch == ']' {
        Ok((SpecToken::RBracket, st1))
    } else if ch == '{' {
        Ok((SpecToken::LBrace, st1))
    } else if ch == '}' {
        Ok((SpecToken::RBrace, st1))
    } else if ch == '&' {
        Ok((SpecToken::Ampersand, st1))
    } else if ch == '@' {
        Ok((SpecToken::At, st1))
    } else if ch == '#' {
        Ok((SpecToken::Hash, st1))
    } else if ch == '\'' {
        Ok((SpecToken::Quote, st1))
    } else if ch == '~' {
        Ok((SpecToken::Tilde, st1))
    } else if ch == '.' {
        if peek_at(inp, st1, 0) == Some('.') {
            let st2 = adv(inp, st1);
            if peek_at(inp, st2, 0) == Some('=') {
                Ok((SpecToken::DotDotEq, adv(inp, st2)))
            } else {
                Ok((SpecToken::DotDot, st2))
            }
        } else if (match peek_at(inp, st1, 0) {
            Some(c) => spec_is_whitespace(c) || c == ')' || c == ']',
            None => true,
        }) {
            Ok((SpecToken::Dot, st1))
        } else {
            let (s, st2) = take_sym(inp, st1, seq!['.']);
            Ok((SpecToken::Symbol(s), st2))
        }
    } else if ch == '"' {
        match lex_string(inp, st1, Seq::empty()) {
            Ok((s, st2)) => Ok((SpecToken::Str(s), st2)),
            Err(m) => Err(m),
        }
    } else if ch == '\\' {
        lex_char(inp, st)
    } else if ch == ':' {
        lex_keyword(inp, st)
    } else if ch == '-' {
        if peek_at(inp, st, 1) == Some('>') {
            Ok((SpecToken::Arrow, adv(inp, st1)))
        } else if (match peek_at(inp, st, 1) {
            Some(d) => is_digit(d),
            None => false,
        }) {
            lex_number(inp, st)
        } else {
            Ok(lex_symbol(inp, st))
        }
    } else if ch == '=' {
        if peek_at(inp, st1, 0) == Some('>') {
            Ok((SpecToken::FatArrow, adv(inp, st1)))
        } else {
            Ok((SpecToken::Symbol("="@), st1))
        }
    } else if is_digit(ch) {
        lex_number(inp, st)
    } else if symbol_start(ch) || ch == '+' || ch == '*' || ch == '/' || ch == '%' || ch == '<'
        || ch == '>' || ch == '!' || ch == '^' || ch == '|' || ch == '?' {
        Ok(lex_symbol(inp, st))
    } else {
        Err(
            "Unexpected character '"@ + seq![ch] + "' at line "@ + int_text(st.line) + " col "@
                + int_text(st.col),
        )
    }
}

/// All tokens from `st` to the end of the input, or the first error.
pub open spec fn lex_all(inp: Seq<char>, st: LexPos) -> Result<Seq<SpecSpanned>, Seq<char>>
    decreases inp.len() - st.pos,
{
    if 0 <= st.pos < inp.len() {
        let st1 = skip_ws(inp, st, false);
        if st1.pos >= inp.len() {
            Ok(Seq::empty())
        } else {
            match lex_token(inp, st1) {
                Err(m) => Err(m),
                Ok((t, st2)) => {
                    if st.pos < st2.pos <= inp.len() {
                        match lex_all(inp, st2) {
                            Ok(rest) => Ok(seq![SpecSpanned { token: t, line: st1.line, col: st1.col }] + rest),
                            Err(m) => Err(m),
                        }
                    } else {
                        Err(Seq::empty())
                    }
                },
            }
        }
    } else {
        Ok(Seq::empty())
    }
}

/// Skipping from a position after which there are only whitespace and
/// commas reaches the end.
proof fn lemma_skip_blank(inp: Seq<char>, st: LexPos)
    requires
        0 <= st.pos <= inp.len(),
        forall|i: int| st.pos <= i < inp.len() ==> spec_is_whitespace(#[trigger] inp[i]) || inp[i] == ',',
    ensures
        skip_ws(inp, st, false).pos >= inp.len(),
    decreases inp.len() - st.pos,
{
    if st.pos < inp.len() {
        lemma_skip_blank(inp, adv(inp, st));
    }
}

/// Whitespace and commas separate tokens and are not tokens: a text made of
/// nothing else has no tokens.
pub proof fn lemma_blank_input_has_no_tokens(inp: Seq<char>)
    requires
        forall|i: int| 0 <= i < inp.len() ==> spec_is_whitespace(#[trigger] inp[i]) || inp[i] == ',',
    ensures
        tokenize_text(inp) == Ok::<Seq<SpecSpanned>, Seq<char>>(Seq::empty()),
{
    lemma_skip_blank(inp, LexPos { pos: 0, line: 1, col: 1 });
}

// ── Where tokens stand ──────────────────────────────────────────────────

/// The number of line breaks in `s`.
pub open spec fn newlines(s: Seq<char>) -> nat
    decreases s.len(),
{
    if s.len() == 0 {
        0
    } else {
        newlines(s.drop_last()) + if s.last() == '\n' { 1nat } else { 0nat }
    }
}

/// Where the last line of `s` starts: just after its last line break, or 0.
pub open spec fn line_start(s: Seq<char>) -> int
    decreases s.len(),
{
    if s.len() == 0 {
        0
    } else if s.last() == '\n' {
        s.len() as int
    } else {
        line_start(s.drop_last())
    }
}

/// The line and column of `st` count the text before its position: one line
/// more than the line breaks read, and one column more than the characters
/// read since the last of them.
pub open spec fn counted(inp: Seq<char>, st: LexPos) -> bool {
    &&& 0 <= st.pos <= inp.len()
    &&& st.line == 1 + newlines(inp.take(st.pos))
    &&& st.col == st.pos - line_start(inp.take(st.pos)) + 1
}

/// Moving past a character keeps the count.
pub broadcast proof fn lemma_adv_counted(inp: Seq<char>, st: LexPos)
    requires
        counted(inp, st),
    ensures
        #[trigger] counted(inp, adv(inp, st)),
        adv(inp, st).pos >= st.pos,
        st.pos < inp.len() ==> adv(inp, st).pos == st.pos + 1,
{
    if st.pos < inp.len() {
        assert(inp.take(st.pos + 1).drop_last() =~= inp.take(st.pos));
    }
}

proof fn lemma_take_sym_counted(inp: Seq<char>, st: LexPos, acc: Seq<char>)
    requires
        counted(inp, st),
    ensures
        counted(inp, take_sym(inp, st, acc).1),
        take_sym(inp, st, acc).1.pos >= st.pos,
    decreases inp.len() - st.pos,
{
    broadcast use lemma_adv_counted;
    if 0 <= st.pos < inp.len() && symbol_char(inp[st.pos]) {
        lemma_take_sym_counted(inp, adv(inp, st), acc.push(inp[st.pos]));
    }
}

proof fn lemma_take_alpha_counted(inp: Seq<char>, st: LexPos, acc: Seq<char>)
    requires
        counted(inp, st),
    ensures
        counted(inp, take_alpha(inp, st, acc).1),
        take_alpha(inp, st, acc).1.pos >= st.pos,
    decreases inp.len() - st.pos,
{
    broadcast use lemma_adv_counted;
    if 0 <= st.pos < inp.len() && alphabetic(inp[st.pos]) {
        lemma_take_alpha_counted(inp, adv(inp, st), acc.push(inp[st.pos]));
    }
}

proof fn lemma_take_kw_counted(inp: Seq<char>, st: LexPos, acc: Seq<char>)
    requires
        counted(inp, st),
    ensures
        counted(inp, take_kw(inp, st, acc).1),
        take_kw(inp, st, acc).1.pos >= st.pos,
    decreases inp.len() - st.pos,
{
    broadcast use lemma_adv_counted;
    if 0 <= st.pos < inp.len() && (symbol_char(inp[st.pos]) || inp[st.pos] == '/') {
        lemma_take_kw_counted(inp, adv(inp, st), acc.push(inp[st.pos]));
    }
}

proof fn lemma_take_symbol_counted(inp: Seq<char>, st: LexPos, acc: Seq<char>)
    requires
        counted(inp, st),
    ensures
        counted(inp, take_symbol(inp, st, acc).1),
        take_symbol(inp, st, acc).1.pos >= st.pos,
    decreases inp.len() - st.pos,
{
    broadcast use lemma_adv_counted;
    if 0 <= st.pos < inp.len() && (symbol_char(inp[st.pos]) || ((inp[st.pos] == ':' || inp[st.pos] == '.')
        && acc.len() > 0)) {
        lemma_take_symbol_counted(inp, adv(inp, st), acc.push(inp[st.pos]));
    }
}

proof fn lemma_take_number_counted(inp: Seq<char>, st: LexPos, acc: Seq<char>, is_float: bool)
    requires
        counted(inp, st),
    ensures
        counted(inp, take_number(inp, st, acc, is_float).2),
        take_number(inp, st, acc, is_float).2.pos >= st.pos,
    decreases inp.len() - st.pos,
{
    broadcast use lemma_adv_counted;
    if 0 <= st.pos < inp.len() {
        let c = inp[st.pos];
        let st1 = adv(inp, st);
        if is_digit(c) || c == '_' {
            lemma_take_number_counted(inp, st1, acc.push(c), is_float);
        } else if c == '.' && !is_float && (match peek_at(inp, st, 1) {
            Some(d) => is_digit(d),
            None => false,
        }) {
            lemma_take_number_counted(inp, st1, acc.push(c), true);
        } else if c == 'e' || c == 'E' {
            if 0 <= st1.pos < inp.len() && (inp[st1.pos] == '+' || inp[st1.pos] == '-') {
                lemma_take_number_counted(inp, adv(inp, st1), acc.push(c).push(inp[st1.pos]), true);
            } else {
                lemma_take_number_counted(inp, st1, acc.push(c), true);
            }
        }
    }
}

proof fn lemma_lex_string_counted(inp: Seq<char>, st: LexPos, acc: Seq<char>)
    requires
        counted(inp, st),
    ensures
        lex_string(inp, st, acc) matches Ok((_, st2)) ==> counted(inp, st2) && st2.pos > st.pos,
    decreases inp.len() - st.pos,
{
    broadcast use lemma_adv_counted;
    if 0 <= st.pos < inp.len() {
        let c = inp[st.pos];
        let st1 = adv(inp, st);
        if c == '\\' {
            if 0 <= st1.pos < inp.len() {
                let e = inp[st1.pos];
                let st2 = adv(inp, st1);
                if e == 'n' {
                    lemma_lex_string_counted(inp, st2, acc.push('\n'));
                } else if e == 't' {
                    lemma_lex_string_counted(inp, st2, acc.push('\t'));
                } else if e == 'r' {
                    lemma_lex_string_counted(inp, st2, acc.push('\r'));
                } else if e == '\\' {
                    lemma_lex_string_counted(inp, st2, acc.push('\\'));
                } else if e == '"' {
                    lemma_lex_string_counted(inp, st2, acc.push('"'));
                } else if e == '0' {
                    lemma_lex_string_counted(inp, st2, acc.push('\0'));
                } else {
                    lemma_lex_string_counted(inp, st2, acc.push('\\').push(e));
                }
            }
        } else if c != '"' {
            lemma_lex_string_counted(inp, st1, acc.push(c));
        }
    }
}

/// Reading a token keeps the count and moves forward.
proof fn lemma_lex_token_counted(inp: Seq<char>, st: LexPos)
    requires
        counted(inp, st),
        st.pos < inp.len(),
    ensures
        lex_token(inp, st) matches Ok((_, st2)) ==> counted(inp, st2) && st2.pos > st.pos,
{
    broadcast use lemma_adv_counted;
    // Every way of reading a token moves first past its first character and
    // then reads on with one of the scanners below.
    let ch = inp[st.pos];
    let st1 = adv(inp, st);
    let st2 = adv(inp, st1);
    lemma_take_sym_counted(inp, st1, seq!['.']);
    lemma_lex_string_counted(inp, st1, Seq::empty());
    lemma_take_alpha_counted(inp, st1, Seq::empty());
    if 0 <= st1.pos < inp.len() {
        lemma_take_alpha_counted(inp, st2, seq![inp[st1.pos]]);
    }
    lemma_take_kw_counted(inp, st1, Seq::empty());
    lemma_take_number_counted(inp, st1, seq!['-'], false);
    lemma_take_symbol_counted(inp, st1, seq![ch]);
    assert(Seq::<char>::empty().push(ch) =~= seq![ch]);
    if symbol_char(ch) {
        assert(take_symbol(inp, st, Seq::empty()) == take_symbol(inp, st1, seq![ch]));
    }
    lemma_take_number_counted(inp, st1, seq![ch], false);
    if is_digit(ch) {
        assert(take_number(inp, st, Seq::empty(), false) == take_number(inp, st1, seq![ch], false));
    }
}

/// Skipping blanks and comments keeps the count and never moves back.
proof fn lemma_skip_ws_counted(inp: Seq<char>, st: LexPos, in_comment: bool)
    requires
        counted(inp, st),
    ensures
        counted(inp, skip_ws(inp, st, in_comment)),
        skip_ws(inp, st, in_comment).pos >= st.pos,
    decreases inp.len() - st.pos, if in_comment { 1int } else { 0int },
{
    broadcast use lemma_adv_counted;
    if 0 <= st.pos < inp.len() {
        let ch = inp[st.pos];
        if in_comment {
            if ch == '\n' {
                lemma_skip_ws_counted(inp, st, false);
            } else {
                lemma_skip_ws_counted(inp, adv(inp, st), true);
            }
        } else if spec_is_whitespace(ch) || ch == ',' {
            lemma_skip_ws_counted(inp, adv(inp, st), false);
        } else if ch == ';' {
            lemma_skip_ws_counted(inp, adv(inp, st), true);
        }
    }
}

/// Where each token that `lex_all` reads from `st` starts.
pub open spec fn token_starts(inp: Seq<char>, st: LexPos) -> Seq<int>
    decreases inp.len() - st.pos,
{
    if 0 <= st.pos < inp.len() {
        let st1 = skip_ws(inp, st, false);
        if st1.pos >= inp.len() {
            Seq::empty()
        } else {
            match lex_token(inp, st1) {
                Err(_) => Seq::empty(),
                Ok((_, st2)) => if st.pos < st2.pos <= inp.len() {
                    seq![st1.pos] + token_starts(inp, st2)
                } else {
                    Seq::empty()
                },
            }
        }
    } else {
        Seq::empty()
    }
}

/// Each token read from a counted position stands where its line and column
/// say: its line is one more than the line breaks before its first
/// character, its column one more than the characters since the last of
/// them; and tokens start at increasing positions.
pub proof fn lemma_token_spans(inp: Seq<char>, st: LexPos)
    requires
        counted(inp, st),
        lex_all(inp, st) is Ok,
    ensures
        ({
            let ts = lex_all(inp, st)->Ok_0;
            let ps = token_starts(inp, st);
            &&& ps.len() == ts.len()
            &&& forall|i: int| 0 <= i < ps.len() ==> st.pos <= #[trigger] ps[i] < inp.len()
            &&& forall|i: int| 0 <= i < ps.len() ==> #[trigger] ts[i].line == 1 + newlines(inp.take(ps[i]))
                && ts[i].col == ps[i] - line_start(inp.take(ps[i])) + 1
            &&& forall|i: int, j: int| 0 <= i < j < ps.len() ==> ps[i] < ps[j]
        }),
    decreases inp.len() - st.pos,
{
    if 0 <= st.pos < inp.len() {
        let st1 = skip_ws(inp, st, false);
        lemma_skip_ws_counted(inp, st, false);
        if st1.pos < inp.len() {
            lemma_lex_token_counted(inp, st1);
            let st2 = lex_token(inp, st1)->Ok_0.1;
            lemma_token_spans(inp, st2);
            let ts = lex_all(inp, st)->Ok_0;
            let ps = token_starts(inp, st);
            let rest = token_starts(inp, st2);
            assert(ps == seq![st1.pos] + rest);
            assert forall|i: int| 0 <= i < ps.len() implies st.pos <= #[trigger] ps[i] < inp.len() by {
                if i > 0 {
                    assert(ps[i] == rest[i - 1]);
                }
            }
            assert forall|i: int| 0 <= i < ps.len() implies #[trigger] ts[i].line == 1 + newlines(inp.take(ps[i]))
                && ts[i].col == ps[i] - line_start(inp.take(ps[i])) + 1 by {
                if i > 0 {
                    assert(ps[i] == rest[i - 1]);
                    assert(ts[i] == lex_all(inp, st2)->Ok_0[i - 1]);
                }
            }
            assert forall|i: int, j: int| 0 <= i < j < ps.len() implies ps[i] < ps[j] by {
                assert(ps[j] == rest[j - 1]);
                if i > 0 {
                    assert(ps[i] == rest[i - 1]);
                }
            }
        }
    }
}

/// The tokens of a whole text stand where their lines and columns say.
pub proof fn lemma_tokenize_spans(inp: Seq<char>)
    requires
        tokenize_text(inp) is Ok,
    ensures
        ({
            let ts = tokenize_text(inp)->Ok_0;
            let ps = token_starts(inp, LexPos { pos: 0, line: 1, col: 1 });
            &&& ps.len() == ts.len()
            &&& forall|i: int| 0 <= i < ps.len() ==> 0 <= #[trigger] ps[i] < inp.len()
            &&& forall|i: int| 0 <= i < ps.len() ==> #[trigger] ts[i].line == 1 + newlines(inp.take(ps[i]))
                && ts[i].col == ps[i] - line_start(inp.take(ps[i])) + 1
            &&& forall|i: int, j: int| 0 <= i < j < ps.len() ==> ps[i] < ps[j]
        }),
{
    assert(inp.take(0) =~= Seq::<char>::empty());
    lemma_token_spans(inp, LexPos { pos: 0, line: 1, col: 1 });
}

// ── Literal words ───────────────────────────────────────────────────────

/// The word `w` stands in `inp` at `p`, and nothing that could continue a
/// symbol follows it.
pub open spec fn symbol_word_at(inp: Seq<char>, p: int, w: Seq<char>) -> bool {
    &&& 0 <= p
    &&& p + w.len() <= inp.len()
    &&& inp.subrange(p, p + w.len()) == w
    &&& (p + w.len() == inp.len() || !(symbol_char(inp[p + w.len()]) || inp[p + w.len()] == ':'
        || inp[p + w.len()] == '.'))
}

/// Reading a symbol over a word of ASCII letters reads exactly that word.
proof fn lemma_take_symbol_word(inp: Seq<char>, st: LexPos, acc: Seq<char>, w: Seq<char>)
    requires
        symbol_word_at(inp, st.pos, w),
        forall|k: int| 0 <= k < w.len() ==> 'a' <= #[trigger] w[k] <= 'z',
    ensures
        take_symbol(inp, st, acc) == (acc + w, further(st, w.len() as int)),
    decreases w.len(),
{
    if w.len() == 0 {
        assert(acc + w =~= acc);
    } else {
        assert(inp[st.pos] == inp.subrange(st.pos, st.pos + w.len())[0]);
        let rest = w.drop_first();
        assert(inp.subrange(st.pos + 1, st.pos + 1 + rest.len()) =~= rest) by {
            assert forall|k: int| 0 <= k < rest.len() implies inp[st.pos + 1 + k] == rest[k] by {
                assert(inp[st.pos + 1 + k] == inp.subrange(st.pos, st.pos + w.len())[k + 1]);
            }
        }
        lemma_take_symbol_word(inp, adv(inp, st), acc.push(w[0]), rest);
        assert(acc.push(w[0]) + rest =~= acc + w);
    }
}

/// `true` and `false` read as the two booleans and `nil` as nil, each as a
/// whole word.
pub proof fn lemma_literal_words(inp: Seq<char>, st: LexPos)
    requires
        0 <= st.pos < inp.len(),
    ensures
        symbol_word_at(inp, st.pos, "true"@) ==> lex_token(inp, st) == Ok::<(SpecToken, LexPos), Seq<char>>(
            (SpecToken::Bool(true), further(st, 4)),
        ),
        symbol_word_at(inp, st.pos, "false"@) ==> lex_token(inp, st) == Ok::<(SpecToken, LexPos), Seq<char>>(
            (SpecToken::Bool(false), further(st, 5)),
        ),
        symbol_word_at(inp, st.pos, "nil"@) ==> lex_token(inp, st) == Ok::<(SpecToken, LexPos), Seq<char>>(
            (SpecToken::Nil, further(st, 3)),
        ),
{
    reveal_strlit("true");
    reveal_strlit("false");
    reveal_strlit("nil");
    let words = seq!["true"@, "false"@, "nil"@];
    assert forall|i: int| 0 <= i < 3 && #[trigger] symbol_word_at(inp, st.pos, words[i]) implies {
        &&& inp[st.pos] == words[i][0]
        &&& take_symbol(inp, st, Seq::empty()) == (words[i], further(st, words[i].len() as int))
    } by {
        let w = words[i];
        assert(inp[st.pos] == inp.subrange(st.pos, st.pos + w.len())[0]);
        lemma_take_symbol_word(inp, st, Seq::empty(), w);
        assert(Seq::<char>::empty() + w =~= w);
    }
    if symbol_word_at(inp, st.pos, "true"@) {
        assert(symbol_word_at(inp, st.pos, words[0]));
    }
    if symbol_word_at(inp, st.pos, "false"@) {
        assert(symbol_word_at(inp, st.pos, words[1]));
    }
    if symbol_word_at(inp, st.pos, "nil"@) {
        assert(symbol_word_at(inp, st.pos, words[2]));
    }
}

// ── One-character tokens ────────────────────────────────────────────────

/// Each bracket and each punctuation mark that is a token of its own reads
/// as that token, one character long.
pub proof fn lemma_single_char_tokens(inp: Seq<char>, st: LexPos)
    requires
        0 <= st.pos < inp.len(),
    ensures
        inp[st.pos] == '(' ==> lex_token(inp, st) == Ok::<(SpecToken, LexPos), Seq<char>>((SpecToken::LParen, further(st, 1))),
        inp[st.pos] == ')' ==> lex_token(inp, st) == Ok::<(SpecToken, LexPos), Seq<char>>((SpecToken::RParen, further(st, 1))),
        inp[st.pos] == '[' ==> lex_token(inp, st) == Ok::<(SpecToken, LexPos), Seq<char>>((SpecToken::LBracket, further(st, 1))),
        inp[st.pos] == ']' ==> lex_token(inp, st) == Ok::<(SpecToken, LexPos), Seq<char>>((SpecToken::RBracket, further(st, 1))),
        inp[st.pos] == '{' ==> lex_token(inp, st) == Ok::<(SpecToken, LexPos), Seq<char>>((SpecToken::LBrace, further(st, 1))),
        inp[st.pos] == '}' ==> lex_token(inp, st) == Ok::<(SpecToken, LexPos), Seq<char>>((SpecToken::RBrace, further(st, 1))),
        inp[st.pos] == '&' ==> lex_token(inp, st) == Ok::<(SpecToken, LexPos), Seq<char>>((SpecToken::Ampersand, further(st, 1))),
        inp[st.pos] == '@' ==> lex_token(inp, st) == Ok::<(SpecToken, LexPos), Seq<char>>((SpecToken::At, further(st, 1))),
        inp[st.pos] == '#' ==> lex_token(inp, st) == Ok::<(SpecToken, LexPos), Seq<char>>((SpecToken::Hash, further(st, 1))),
        inp[st.pos] == '\'' ==> lex_token(inp, st) == Ok::<(SpecToken, LexPos), Seq<char>>((SpecToken::Quote, further(st, 1))),
        inp[st.pos] == '~' ==> lex_token(inp, st) == Ok::<(SpecToken, LexPos), Seq<char>>((SpecToken::Tilde, further(st, 1))),
{
}

// ── Named character literals ────────────────────────────────────────────

/// The word `w` stands in `inp` at `p`, and no letter follows it.
pub open spec fn word_at(inp: Seq<char>, p: int, w: Seq<char>) -> bool {
    &&& 0 <= p
    &&& p + w.len() <= inp.len()
    &&& inp.subrange(p, p + w.len()) == w
    &&& (p + w.len() == inp.len() || !alphabetic(inp[p + w.len()]))
}

/// `n` characters further on the same line.
pub open spec fn further(st: LexPos, n: int) -> LexPos {
    LexPos { pos: st.pos + n, line: st.line, col: st.col + n }
}

/// Reading letters over a word of ASCII letters reads exactly that word.
proof fn lemma_take_alpha_word(inp: Seq<char>, st: LexPos, acc: Seq<char>, w: Seq<char>)
    requires
        word_at(inp, st.pos, w),
        forall|k: int| 0 <= k < w.len() ==> 'a' <= #[trigger] w[k] <= 'z',
    ensures
        take_alpha(inp, st, acc) == (acc + w, further(st, w.len() as int)),
    decreases w.len(),
{
    if w.len() == 0 {
        assert(acc + w =~= acc);
    } else {
        assert(inp[st.pos] == inp.subrange(st.pos, st.pos + w.len())[0]);
        let rest = w.drop_first();
        assert(inp.subrange(st.pos + 1, st.pos + 1 + rest.len()) =~= rest) by {
            assert forall|k: int| 0 <= k < rest.len() implies inp[st.pos + 1 + k] == rest[k] by {
                assert(inp[st.pos + 1 + k] == inp.subrange(st.pos, st.pos + w.len())[k + 1]);
            }
        }
        lemma_take_alpha_word(inp, adv(inp, st), acc.push(w[0]), rest);
        assert(acc.push(w[0]) + rest =~= acc + w);
    }
}

/// The named character literals denote the characters they name: `\space`
/// a space, `\tab` a tab, `\newline` a line break and `\return` a carriage
/// return, whatever stands around them, and each is read whole.
pub proof fn lemma_named_chars(inp: Seq<char>, st: LexPos)
    requires
        0 <= st.pos < inp.len(),
        inp[st.pos] == '\\',
    ensures
        word_at(inp, st.pos + 1, "space"@) ==> lex_token(inp, st) == Ok::<(SpecToken, LexPos), Seq<char>>(
            (SpecToken::Char(' '), further(st, 6)),
        ),
        word_at(inp, st.pos + 1, "tab"@) ==> lex_token(inp, st) == Ok::<(SpecToken, LexPos), Seq<char>>(
            (SpecToken::Char('\t'), further(st, 4)),
        ),
        word_at(inp, st.pos + 1, "newline"@) ==> lex_token(inp, st) == Ok::<(SpecToken, LexPos), Seq<char>>(
            (SpecToken::Char('\n'), further(st, 8)),
        ),
        word_at(inp, st.pos + 1, "return"@) ==> lex_token(inp, st) == Ok::<(SpecToken, LexPos), Seq<char>>(
            (SpecToken::Char('\r'), further(st, 7)),
        ),
{
    reveal_strlit("space");
    reveal_strlit("tab");
    reveal_strlit("newline");
    reveal_strlit("return");
    reveal_strlit("n");
    let st1 = adv(inp, st);
    let st2 = adv(inp, st1);
    assert(st1 == further(st, 1));
    let words = seq!["space"@, "tab"@, "newline"@, "return"@];
    assert forall|i: int| 0 <= i < 4 && #[trigger] word_at(inp, st.pos + 1, words[i]) implies {
        let w = words[i];
        &&& st1.pos < inp.len() && inp[st1.pos] == w[0]
        &&& st2 == further(st, 2)
        &&& take_alpha(inp, st2, seq![w[0]]) == (w, further(st, 1 + w.len() as int))
    } by {
        let w = words[i];
        assert(inp[st.pos + 1] == inp.subrange(st.pos + 1, st.pos + 1 + w.len())[0]);
        let rest = w.drop_first();
        assert(word_at(inp, st.pos + 2, rest)) by {
            assert forall|k: int| 0 <= k < rest.len() implies inp[st.pos + 2 + k] == rest[k] by {
                assert(inp[st.pos + 2 + k] == inp.subrange(st.pos + 1, st.pos + 1 + w.len())[k + 1]);
            }
            assert(inp.subrange(st.pos + 2, st.pos + 2 + rest.len()) =~= rest);
        }
        lemma_take_alpha_word(inp, st2, seq![w[0]], rest);
        assert(seq![w[0]] + rest =~= w);
    }
    if word_at(inp, st.pos + 1, "space"@) {
        assert(word_at(inp, st.pos + 1, words[0]));
    }
    if word_at(inp, st.pos + 1, "tab"@) {
        assert(word_at(inp, st.pos + 1, words[1]));
    }
    if word_at(inp, st.pos + 1, "newline"@) {
        assert(word_at(inp, st.pos + 1, words[2]));
        assert(inp[st1.pos + 1] == 'e') by {
            assert(inp[st.pos + 2] == inp.subrange(st.pos + 1, st.pos + 8)[1]);
        }
    }
    if word_at(inp, st.pos + 1, "return"@) {
        assert(word_at(inp, st.pos + 1, words[3]));
    }
}

/// The tokens of a whole text, or the first error.
pub open spec fn tokenize_text(inp: Seq<char>) -> Result<Seq<SpecSpanned>, Seq<char>> {
    lex_all(inp, LexPos { pos: 0, line: 1, col: 1 })
}

// ── Executable lexer ────────────────────────────────────────────────────

pub struct Lexer {
    input: Vec<char>,
    pos: usize,
    line: usize,
    col: usize,
}

impl Lexer {
    /// The text being read.
    pub closed spec fn input(&self) -> Seq<char> {
        self.input@
    }

    /// Where the lexer stands.
    pub closed spec fn at(&self) -> LexPos {
        LexPos { pos: self.pos as int, line: self.line as int, col: self.col as int }
    }

    /// The lexer's position and counters are consistent and cannot overflow.
    pub closed spec fn wf(&self) -> bool {
        &&& self.pos <= self.input.len()
        &&& self.input.len() < usize::MAX
        &&& 1 <= self.line <= self.pos + 1
        &&& 1 <= self.col <= self.pos + 1
    }

    /// A lexer at the start of `input`, at line 1, column 1.
    pub fn new(input: &str) -> (r: Self)
        requires
            input@.len() < usize::MAX,
        ensures
            r.input() == input@,
            r.at() == (LexPos { pos: 0, line: 1, col: 1 }),
            r.wf(),
    {
        Lexer { input: chars_of(input), pos: 0, line: 1, col: 1 }
    }

    /// All tokens of the input, each with where it starts, or the first error.
    pub fn tokenize(&mut self) -> (r: Result<Vec<SpannedToken>, String>)
        requires
            old(self).wf(),
        ensures
            final(self).input() == old(self).input(),
            match lex_all(old(self).input(), old(self).at()) {
                Ok(ts) => r is Ok && Seq::new(r->Ok_0@.len(), |i: int| r->Ok_0@[i]@) == ts,
                Err(m) => r is Err && r->Err_0@ == m,
            },
    {
        let ghost inp = self.input@;
        let ghost st0 = self.at();
        let mut tokens: Vec<SpannedToken> = Vec::new();
        loop
            invariant
                self.wf(),
                self.input@ == inp,
                inp == old(self).input(),
                st0 == old(self).at(),
                0 <= st0.pos <= self.pos,
                lex_all(inp, st0) == match lex_all(inp, self.at()) {
                    Ok(rest) => Ok(Seq::new(tokens@.len(), |i: int| tokens@[i]@) + rest),
                    Err(m) => Err(m),
                },
            ensures
                self.pos >= self.input.len(),
            decreases self.input.len() - self.pos,
        {
            if self.pos >= self.input.len() {
                break;
            }
            let ghost st = self.at();
            self.skip_whitespace_and_comments();
            if self.pos >= self.input.len() {
                assert(lex_all(inp, st) == Ok::<Seq<SpecSpanned>, Seq<char>>(Seq::empty()));
                assert(lex_all(inp, self.at()) == Ok::<Seq<SpecSpanned>, Seq<char>>(Seq::empty()));
                break;
            }
            let span = Span { line: self.line, col: self.col };
            let ghost st1 = self.at();
            let token = self.next_token();
            match token {
                Ok(token) => {
                    let ghost old_ts = Seq::new(tokens@.len(), |i: int| tokens@[i]@);
                    let ghost t = token@;
                    tokens.push(SpannedToken { token, span });
                    proof {
                        let ts = Seq::new(tokens@.len(), |i: int| tokens@[i]@);
                        assert(ts == old_ts.push(SpecSpanned { token: t, line: st1.line, col: st1.col }));
                        match lex_all(inp, self.at()) {
                            Ok(rest) => {
                                assert(old_ts + (seq![SpecSpanned { token: t, line: st1.line, col: st1.col }] + rest) == ts + rest);
                            },
                            Err(m) => {},
                        }
                    }
                },
                Err(e) => {
                    assert(lex_all(inp, st) == Err::<Seq<SpecSpanned>, Seq<char>>(e@));
                    return Err(e);
                },
            }
        }
        proof {
            let ts = Seq::new(tokens@.len(), |i: int| tokens@[i]@);
            assert(lex_all(inp, self.at()) == Ok::<Seq<SpecSpanned>, Seq<char>>(Seq::empty()));
            assert(ts + Seq::<SpecSpanned>::empty() == ts);
        }
        Ok(tokens)
    }

    fn peek(&self) -> (r: Option<char>)
        requires
            self.wf(),
        ensures
            r == peek_at(self.input(), self.at(), 0),
    {
        if self.pos < self.input.len() {
            Some(self.input[self.pos])
        } else {
            None
        }
    }

    fn peek_ahead(&self, n: usize) -> (r: Option<char>)
        requires
            self.wf(),
            n <= 1,
        ensures
            r == peek_at(self.input(), self.at(), n as int),
    {
        if self.pos + n < self.input.len() {
            Some(self.input[self.pos + n])
        } else {
            None
        }
    }

    fn advance(&mut self) -> (r: Option<char>)
        requires
            old(self).wf(),
        ensures
            final(self).wf(),
            final(self).input() == old(self).input(),
            final(self).at() == adv(old(self).input(), old(self).at()),
            r == peek_at(old(self).input(), old(self).at(), 0),
    {
        if self.pos < self.input.len() {
            let c = self.input[self.pos];
            self.pos = self.pos + 1;
            if c == '\n' {
                self.line = self.line + 1;
                self.col = 1;
            } else {
                self.col = self.col + 1;
            }
            Some(c)
        } else {
            None
        }
    }

    fn skip_whitespace_and_comments(&mut self)
        requires
            old(self).wf(),
        ensures
            final(self).wf(),
            final(self).input() == old(self).input(),
            final(self).at() == skip_ws(old(self).input(), old(self).at(), false),
            final(self).at().pos >= old(self).at().pos,
    {
        let ghost inp = self.input@;
        let ghost st0 = self.at();
        loop
            invariant_except_break
                self.pos >= st0.pos,
                self.wf(),
                self.input@ == inp,
                skip_ws(inp, st0, false) == skip_ws(inp, self.at(), false),
            ensures
                self.pos >= st0.pos,
                self.wf(),
                self.input@ == inp,
                skip_ws(inp, st0, false) == self.at(),
            decreases self.input.len() - self.pos,
        {
            if self.pos >= self.input.len() {
                break;
            }
            let ch = self.input[self.pos];
            if char_is_whitespace(ch) || ch == ',' {
                self.advance();
            } else if ch == ';' {
                let ghost p0 = self.pos;
                self.advance();
                while self.pos < self.input.len() && self.input[self.pos] != '\n'
                    invariant
                        self.wf(),
                        self.input@ == inp,
                        self.pos > p0,
                        skip_ws(inp, st0, false) == skip_ws(inp, self.at(), true),
                    decreases self.input.len() - self.pos,
                {
                    self.advance();
                }
                assert(skip_ws(inp, self.at(), true) == skip_ws(inp, self.at(), false));
            } else {
                break;
            }
        }
    }

    fn next_token(&mut self) -> (r: Result<Token, String>)
        requires
            old(self).wf(),
            old(self).at().pos < old(self).input().len(),
        ensures
            final(self).wf(),
            final(self).input() == old(self).input(),
            match lex_token(old(self).input(), old(self).at()) {
                Ok((t, st)) => r is Ok && r->Ok_0@ == t && final(self).at() == st,
                Err(m) => r is Err && r->Err_0@ == m,
            },
            r is Ok ==> final(self).at().pos > old(self).at().pos,
    {
        let ch = self.input[self.pos];
        if ch == '(' {
            self.advance();
            Ok(Token::LParen)
        } else if ch == ')' {
            self.advance();
            Ok(Token::RParen)
        } else if ch == '[' {
            self.advance();
            Ok(Token::LBracket)
        } else if ch == ']' {
            self.advance();
            Ok(Token::RBracket)
        } else if ch == '{' {
            self.advance();
            Ok(Token::LBrace)
        } else if ch == '}' {
            self.advance();
            Ok(Token::RBrace)
        } else if ch == '&' {
            self.advance();
            Ok(Token::Ampersand)
        } else if ch == '@' {
            self.advance();
            Ok(Token::At)
        } else if ch == '#' {
            self.advance();
            Ok(Token::Hash)
        } else if ch == '\'' {
            self.advance();
            Ok(Token::Quote)
        } else if ch == '~' {
            self.advance();
            Ok(Token::Tilde)
        } else if ch == '.' {
            self.advance();
            if self.peek() == Some('.') {
                self.advance();
                if self.peek() == Some('=') {
                    self.advance();
                    Ok(Token::DotDotEq)
                } else {
                    Ok(Token::DotDot)
                }
            } else if match self.peek() {
                Some(c) => char_is_whitespace(c) || c == ')' || c == ']',
                None => true,
            } {
                Ok(Token::Dot)
            } else {
                let mut s = String::new();
                push_char(&mut s, '.');
                let ghost inp = self.input@;
                let ghost st0 = self.at();
                while self.pos < self.input.len() && is_symbol_char(self.input[self.pos])
                    invariant
                        self.wf(),
                        self.input@ == inp,
                        take_sym(inp, st0, seq!['.']) == take_sym(inp, self.at(), s@),
                        self.pos >= st0.pos,
                    decreases self.input.len() - self.pos,
                {
                    let c = self.input[self.pos];
                    push_char(&mut s, c);
                    self.advance();
                }
                Ok(Token::Symbol(s))
            }
        } else if ch == '"' {
            self.read_string()
        } else if ch == '\\' {
            self.read_char_literal()
        } else if ch == ':' {
            self.read_keyword()
        } else if ch == '-' {
            if self.peek_ahead(1) == Some('>') {
                self.advance();
                self.advance();
                Ok(Token::Arrow)
            } else if match self.peek_ahead(1) {
                Some(d) => char_is_ascii_digit(d),
                None => false,
            } {
                self.read_number()
            } else {
                Ok(self.read_symbol())
            }
        } else if ch == '=' {
            self.advance();
            if self.peek() == Some('>') {
                self.advance();
                Ok(Token::FatArrow)
            } else {
                Ok(Token::Symbol(string_of("=")))
            }
        } else if char_is_ascii_digit(ch) {
            self.read_number()
        } else if is_symbol_start(ch) || ch == '+' || ch == '*' || ch == '/' || ch == '%' || ch == '<'
            || ch == '>' || ch == '!' || ch == '^' || ch == '|' || ch == '?' {
            Ok(self.read_symbol())
        } else {
            let mut m = string_of("Unexpected character '");
            push_char(&mut m, ch);
            push_str(&mut m, "' at line ");
            let l = usize_to_string(self.line);
            push_str(&mut m, l.as_str());
            push_str(&mut m, " col ");
            let c = usize_to_string(self.col);
            push_str(&mut m, c.as_str());
            proof {
                assert(m@ == "Unexpected character '"@ + seq![ch] + "' at line "@ + int_text(self.line as int)
                    + " col "@ + int_text(self.col as int));
            }
            Err(m)
        }
    }

    fn read_string(&mut self) -> (r: Result<Token, String>)
        requires
            old(self).wf(),
            old(self).at().pos < old(self).input().len(),
        ensures
            final(self).wf(),
            final(self).input() == old(self).input(),
            match lex_string(old(self).input(), adv(old(self).input(), old(self).at()), Seq::empty()) {
                Ok((s, st)) => r is Ok && r->Ok_0@ == SpecToken::Str(s) && final(self).at() == st,
                Err(m) => r is Err && r->Err_0@ == m,
            },
            r is Ok ==> final(self).at().pos > old(self).at().pos,
    {
        self.advance();
        let ghost inp = self.input@;
        let ghost st0 = self.at();
        let mut s = String::new();
        loop
            invariant
                self.wf(),
                self.input@ == inp,
                inp == old(self).input(),
                st0 == adv(old(self).input(), old(self).at()),
                st0.pos == old(self).at().pos + 1,
                self.pos >= st0.pos,
                lex_string(inp, st0, Seq::empty()) == lex_string(inp, self.at(), s@),
            decreases self.input.len() - self.pos,
        {
            match self.advance() {
                None => {
                    return Err(string_of("Unterminated string literal"));
                },
                Some(c) => {
                    if c == '\\' {
                        match self.advance() {
                            Some(e) => {
                                if e == 'n' {
                                    push_char(&mut s, '\n');
                                } else if e == 't' {
                                    push_char(&mut s, '\t');
                                } else if e == 'r' {
                                    push_char(&mut s, '\r');
                                } else if e == '\\' {
                                    push_char(&mut s, '\\');
                                } else if e == '"' {
                                    push_char(&mut s, '"');
                                } else if e == '0' {
                                    push_char(&mut s, '\0');
                                } else {
                                    push_char(&mut s, '\\');
                                    push_char(&mut s, e);
                                }
                            },
                            None => {
                                return Err(string_of("Unterminated escape in string"));
                            },
                        }
                    } else if c == '"' {
                        return Ok(Token::String(s));
                    } else {
                        push_char(&mut s, c);
                    }
                },
            }
        }
    }

    fn read_char_literal(&mut self) -> (r: Result<Token, String>)
        requires
            old(self).wf(),
            old(self).at().pos < old(self).input().len(),
        ensures
            final(self).wf(),
            final(self).input() == old(self).input(),
            match lex_char(old(self).input(), old(self).at()) {
                Ok((t, st)) => r is Ok && r->Ok_0@ == t && final(self).at() == st,
                Err(m) => r is Err && r->Err_0@ == m,
            },
            r is Ok ==> final(self).at().pos > old(self).at().pos,
    {
        let ghost inp = self.input@;
        self.advance();
        let ghost st1 = self.at();
        match self.peek() {
            Some(c) => {
                if c == 'n' && match self.peek_ahead(1) {
                    Some(d) => !is_symbol_char(d),
                    None => true,
                } {
                    proof {
                        lemma_take_alpha_grows(inp, adv(inp, st1), seq!['n']);
                    }
                    let word = self.read_alpha(String::new());
                    if str_eq(word.as_str(), "newline") {
                        Ok(Token::Char('\n'))
                    } else if str_eq(word.as_str(), "n") {
                        Ok(Token::Char('n'))
                    } else {
                        let w = chars_of_string(&word);
                        Ok(Token::Char(w[0]))
                    }
                } else {
                    self.advance();
                    if char_is_alphabetic(c) {
                        let mut start = String::new();
                        push_char(&mut start, c);
                        let word = self.read_alpha(start);
                        if str_eq(word.as_str(), "space") {
                            Ok(Token::Char(' '))
                        } else if str_eq(word.as_str(), "tab") {
                            Ok(Token::Char('\t'))
                        } else if str_eq(word.as_str(), "newline") {
                            Ok(Token::Char('\n'))
                        } else if str_eq(word.as_str(), "return") {
                            Ok(Token::Char('\r'))
                        } else {
                            let w = chars_of_string(&word);
                            if w.len() == 1 && (w[0] as u32) < 128 {
                                Ok(Token::Char(w[0]))
                            } else {
                                let mut m = string_of("Unknown character literal: \\");
                                push_str(&mut m, word.as_str());
                                Err(m)
                            }
                        }
                    } else {
                        Ok(Token::Char(c))
                    }
                }
            },
            None => Err(string_of("Unexpected end of input after \\")),
        }
    }

    /// Reads alphabetic characters onto `acc`.
    fn read_alpha(&mut self, acc: String) -> (r: String)
        requires
            old(self).wf(),
        ensures
            final(self).wf(),
            final(self).input() == old(self).input(),
            (r@, final(self).at()) == take_alpha(old(self).input(), old(self).at(), acc@),
            final(self).at().pos >= old(self).at().pos,
    {
        let ghost inp = self.input@;
        let ghost st0 = self.at();
        let mut word = acc;
        while self.pos < self.input.len() && char_is_alphabetic(self.input[self.pos])
            invariant
                self.wf(),
                self.input@ == inp,
                self.pos >= st0.pos,
                take_alpha(inp, st0, acc@) == take_alpha(inp, self.at(), word@),
            decreases self.input.len() - self.pos,
        {
            let c = self.input[self.pos];
            push_char(&mut word, c);
            self.advance();
        }
        word
    }

    fn read_keyword(&mut self) -> (r: Result<Token, String>)
        requires
            old(self).wf(),
            old(self).at().pos < old(self).input().len(),
        ensures
            final(self).wf(),
            final(self).input() == old(self).input(),
            match lex_keyword(old(self).input(), old(self).at()) {
                Ok((t, st)) => r is Ok && r->Ok_0@ == t && final(self).at() == st,
                Err(m) => r is Err && r->Err_0@ == m,
            },
            r is Ok ==> final(self).at().pos > old(self).at().pos,
    {
        self.advance();
        let ghost inp = self.input@;
        let ghost st0 = self.at();
        let mut name = String::new();
        while self.pos < self.input.len() && (is_symbol_char(self.input[self.pos]) || self.input[self.pos] == '/')
            invariant
                self.wf(),
                self.input@ == inp,
                self.pos >= st0.pos,
                take_kw(inp, st0, Seq::empty()) == take_kw(inp, self.at(), name@),
            decreases self.input.len() - self.pos,
        {
            let c = self.input[self.pos];
            push_char(&mut name, c);
            self.advance();
        }
        let chars = chars_of_string(&name);
        if chars.len() == 0 {
            return Ok(Token::Symbol(string_of(":")));
        }
        Ok(Token::Keyword(name))
    }

    fn read_number(&mut self) -> (r: Result<Token, String>)
        requires
            old(self).wf(),
            old(self).at().pos < old(self).input().len(),
            number_start(old(self).input(), old(self).at()),
        ensures
            final(self).wf(),
            final(self).input() == old(self).input(),
            match lex_number(old(self).input(), old(self).at()) {
                Ok((t, st)) => r is Ok && r->Ok_0@ == t && final(self).at() == st,
                Err(m) => r is Err && r->Err_0@ == m,
            },
            r is Ok ==> final(self).at().pos > old(self).at().pos,
    {
        let ghost inp = self.input@;
        let ghost st_start = self.at();
        let mut s = String::new();
        let mut is_float = false;
        if self.peek() == Some('-') {
            push_char(&mut s, '-');
            self.advance();
        }
        let ghost st0 = self.at();
        let ghost s0 = s@;
        loop
            invariant_except_break
                self.wf(),
                self.input@ == inp,
                self.pos >= st0.pos,
                take_number(inp, st0, s0, false) == take_number(inp, self.at(), s@, is_float),
            ensures
                self.wf(),
                self.input@ == inp,
                self.pos >= st0.pos,
                take_number(inp, st0, s0, false) == (s@, is_float, self.at()),
            decreases self.input.len() - self.pos,
        {
            if self.pos >= self.input.len() {
                break;
            }
            let c = self.input[self.pos];
            if char_is_ascii_digit(c) || c == '_' {
                push_char(&mut s, c);
                self.advance();
            } else if c == '.' && !is_float && match self.peek_ahead(1) {
                Some(d) => char_is_ascii_digit(d),
                None => false,
            } {
                is_float = true;
                push_char(&mut s, c);
                self.advance();
            } else if c == 'e' || c == 'E' {
                is_float = true;
                push_char(&mut s, c);
                self.advance();
                if self.pos < self.input.len() && (self.input[self.pos] == '+' || self.input[self.pos] == '-') {
                    let d = self.input[self.pos];
                    push_char(&mut s, d);
                    self.advance();
                }
            } else {
                break;
            }
        }
        proof {
            assert(is_digit(inp[st0.pos]));
            lemma_take_number_mono(inp, adv(inp, st0), s0.push(inp[st0.pos]), false);
        }
        let sv = chars_of_string(&s);
        let clean = strip_underscores_exec(&sv);
        if is_float {
            if float_ok_exec(&clean) {
                Ok(Token::Float(string_from_chars(&clean)))
            } else {
                let mut m = string_of("Invalid float '");
                push_str(&mut m, s.as_str());
                push_str(&mut m, "': invalid float literal");
                Err(m)
            }
        } else {
            match parse_i64_exec(&clean) {
                Ok(v) => Ok(Token::Integer(v)),
                Err(e) => {
                    let mut m = string_of("Invalid integer '");
                    push_str(&mut m, s.as_str());
                    push_str(&mut m, "': ");
                    push_str(&mut m, e.as_str());
                    Err(m)
                },
            }
        }
    }

    fn read_symbol(&mut self) -> (r: Token)
        requires
            old(self).wf(),
            old(self).at().pos < old(self).input().len(),
            symbol_char(old(self).input()[old(self).at().pos]),
        ensures
            final(self).wf(),
            final(self).input() == old(self).input(),
            (r@, final(self).at()) == lex_symbol(old(self).input(), old(self).at()),
            final(self).at().pos > old(self).at().pos,
    {
        let ghost inp = self.input@;
        let ghost st0 = self.at();
        let mut s = String::new();
        let mut n: usize = 0;
        while self.pos < self.input.len() && (is_symbol_char(self.input[self.pos]) || ((self.input[self.pos] == ':'
            || self.input[self.pos] == '.') && n > 0))
            invariant
                self.wf(),
                self.input@ == inp,
                self.pos >= st0.pos,
                n == s@.len(),
                n <= self.pos,
                n == 0 ==> self.pos == st0.pos,
                take_symbol(inp, st0, Seq::empty()) == take_symbol(inp, self.at(), s@),
            decreases self.input.len() - self.pos,
        {
            let c = self.input[self.pos];
            push_char(&mut s, c);
            n = n + 1;
            self.advance();
        }
        if str_eq(s.as_str(), "true") {
            Token::Bool(true)
        } else if str_eq(s.as_str(), "false") {
            Token::Bool(false)
        } else if str_eq(s.as_str(), "nil") {
            Token::Nil
        } else {
            Token::Symbol(s)
        }
    }
}

proof fn lemma_take_alpha_grows(inp: Seq<char>, st: LexPos, acc: Seq<char>)
    ensures
        take_alpha(inp, st, acc).0.len() >= acc.len(),
    decreases inp.len() - st.pos,
{
    if 0 <= st.pos < inp.len() && alphabetic(inp[st.pos]) {
        lemma_take_alpha_grows(inp, adv(inp, st), acc.push(inp[st.pos]));
    }
}

proof fn lemma_take_number_mono(inp: Seq<char>, st: LexPos, acc: Seq<char>, f: bool)
    ensures
        take_number(inp, st, acc, f).2.pos >= st.pos,
    decreases inp.len() - st.pos,
{
    if 0 <= st.pos < inp.len() {
        let c = inp[st.pos];
        let st1 = adv(inp, st);
        if is_digit(c) || c == '_' {
            lemma_take_number_mono(inp, st1, acc.push(c), f);
        } else if c == '.' && !f && (match peek_at(inp, st, 1) {
            Some(d) => is_digit(d),
            None => false,
        }) {
            lemma_take_number_mono(inp, st1, acc.push(c), true);
        } else if c == 'e' || c == 'E' {
            if 0 <= st1.pos < inp.len() && (inp[st1.pos] == '+' || inp[st1.pos] == '-') {
                lemma_take_number_mono(inp, adv(inp, st1), acc.push(c).push(inp[st1.pos]), true);
            } else {
                lemma_take_number_mono(inp, st1, acc.push(c), true);
            }
        }
    }
}

/// `s` without `_`.
fn strip_underscores_exec(s: &Vec<char>) -> (r: Vec<char>)
    ensures
        r@ == strip_underscores(s@),
{
    let mut r: Vec<char> = Vec::new();
    let mut i: usize = 0;
    while i < s.len()
        invariant
            i <= s.len(),
            r@ == strip_underscores(s@.take(i as int)),
        decreases s.len() - i,
    {
        assert(s@.take(i + 1).drop_last() == s@.take(i as int));
        if s[i] != '_' {
            r.push(s[i]);
        }
        i += 1;
    }
    assert(s@.take(s.len() as int) == s@);
    r
}

fn float_step_exec(state: u8, c: char) -> (r: u8)
    requires
        state <= 8,
    ensures
        r as int == float_step(state as int, c),
        r <= 8,
{
    let digit = '0' <= c && c <= '9';
    if state == 0 {
        if c == '+' || c == '-' { 1 } else if digit { 2 } else if c == '.' { 3 } else { 8 }
    } else if state == 1 {
        if digit { 2 } else if c == '.' { 3 } else { 8 }
    } else if state == 2 {
        if digit { 2 } else if c == '.' { 4 } else if c == 'e' || c == 'E' { 5 } else { 8 }
    } else if state == 3 {
        if digit { 4 } else { 8 }
    } else if state == 4 {
        if digit { 4 } else if c == 'e' || c == 'E' { 5 } else { 8 }
    } else if state == 5 {
        if c == '+' || c == '-' { 6 } else if digit { 7 } else { 8 }
    } else if state == 6 || state == 7 {
        if digit { 7 } else { 8 }
    } else {
        8
    }
}

fn float_ok_exec(s: &Vec<char>) -> (r: bool)
    ensures
        r == float_text_ok(s@),
{
    let mut q: u8 = 0;
    let mut i: usize = 0;
    while i < s.len()
        invariant
            i <= s.len(),
            q <= 8,
            q as int == float_state(s@.take(i as int)),
        decreases s.len() - i,
    {
        assert(s@.take(i + 1).drop_last() == s@.take(i as int));
        q = float_step_exec(q, s[i]);
        i += 1;
    }
    assert(s@.take(s.len() as int) == s@);
    q == 2 || q == 4 || q == 7
}

fn digit_value_exec(c: char) -> (r: u64)
    requires
        is_digit(c),
    ensures
        r as nat == digit_value(c),
        r < 10,
{
    if c == '0' { 0 }
    else if c == '1' { 1 }
    else if c == '2' { 2 }
    else if c == '3' { 3 }
    else if c == '4' { 4 }
    else if c == '5' { 5 }
    else if c == '6' { 6 }
    else if c == '7' { 7 }
    else if c == '8' { 8 }
    else { 9 }
}

proof fn lemma_digits_value_mono(s: Seq<char>, i: int)
    requires
        0 <= i <= s.len(),
    ensures
        digits_value(s.take(i)) <= digits_value(s),
    decreases s.len() - i,
{
    if i < s.len() {
        lemma_digits_value_mono(s, i + 1);
        assert(s.take(i + 1).drop_last() == s.take(i));
    } else {
        assert(s.take(i) == s);
    }
}

/// `s.parse::<i64>()`, with the error's message.
fn parse_i64_exec(s: &Vec<char>) -> (r: Result<i64, String>)
    ensures
        match parse_i64(s@) {
            Ok(v) => r is Ok && r->Ok_0 as int == v,
            Err(m) => r is Err && r->Err_0@ == m,
        },
{
    if s.len() == 0 {
        return Err(string_of("cannot parse integer from empty string"));
    }
    let neg = s[0] == '-';
    let start: usize = if s[0] == '-' || s[0] == '+' { 1 } else { 0 };
    let ghost ds = sign_stripped(s@);
    assert(ds == s@.subrange(start as int, s@.len() as int));
    if start == s.len() {
        return Err(string_of("invalid digit found in string"));
    }
    let limit: u64 = 0x8000_0000_0000_0000;
    let mut v: u64 = 0;
    let mut over = false;
    let mut i: usize = start;
    while i < s.len()
        invariant
            limit == 0x8000_0000_0000_0000u64,
            s@.len() > 0,
            ds == sign_stripped(s@),
            start <= i <= s.len(),
            ds == s@.subrange(start as int, s@.len() as int),
            forall|j: int| 0 <= j < i - start ==> is_digit(#[trigger] ds[j]),
            !over ==> v as nat == digits_value(ds.take(i - start)) && v <= limit,
            over ==> digits_value(ds.take(i - start)) > limit,
        decreases s.len() - i,
    {
        let c = s[i];
        if !('0' <= c && c <= '9') {
            assert(ds[i - start] == c);
            assert(!is_digit(ds[i - start]));
            assert(!all_digits(ds));
            return Err(string_of("invalid digit found in string"));
        }
        let ghost k = i - start;
        assert(ds.take(k + 1).drop_last() == ds.take(k));
        assert(ds.take(k + 1).last() == c);
        let d = digit_value_exec(c);
        if !over {
            if v > (limit - d) / 10 {
                over = true;
                assert(v * 10 + d > limit) by (nonlinear_arith)
                    requires v > (limit - d) / 10, d < 10, limit == 0x8000_0000_0000_0000u64;
            } else {
                assert(v * 10 + d <= limit) by (nonlinear_arith)
                    requires v <= (limit - d) / 10, d < 10, limit == 0x8000_0000_0000_0000u64;
                v = v * 10 + d;
            }
        } else {
            assert(digits_value(ds.take(k + 1)) >= digits_value(ds.take(k)) * 10) by (nonlinear_arith)
                requires digits_value(ds.take(k + 1)) == digits_value(ds.take(k)) * 10 + digit_value(c);
        }
        i += 1;
    }
    assert(ds.take(s.len() - start) == ds);
    if neg {
        if over {
            Err(string_of("number too small to fit in target type"))
        } else if v == limit {
            Ok(i64::MIN)
        } else {
            Ok(-(v as i64))
        }
    } else {
        if over || v > 0x7fff_ffff_ffff_ffff {
            Err(string_of("number too large to fit in target type"))
        } else {
            Ok(v as i64)
        }
    }
}

} // verus!
