//! Parser: turns the token sequence into a syntax tree, exactly as `grammar`
//! describes.
use vstd::prelude::*;
use crate::ast::{
    def_view, defn_view, enum_view, impl_view, mod_view, struct_view, trait_view, SpecProgram, SpecTopLevel,
    arms_view, bindings_view, defns_view, exprs_view, fields_view, named_exprs_view, pairs_view, params_view,
    patterns_view, strs_view, toplevels_view, variants_view, BinOpKind, Def, DefEnum, DefStruct, DefTrait, Defn,
    EnumVariant, Expr, Impl, LetBinding, MatchArm, Mod, Param, Pattern, Program, StructField, TopLevel,
    UnaryOpKind, UsePath, VariantFields,
};
use crate::grammar;
use crate::grammar::{at_sym, at_tok, ident, moved, tok_at, tok_debug, opt_tok_debug, Parsed};
use crate::lexer::{SpannedToken, SpecSpanned, SpecToken, Token};
use crate::text::{
    char_debug, chars_of, chars_of_string, empty_string, i64_to_string, join_strings, push_char, push_str, str_debug,
    str_eq, string_from_chars, string_of, usize_to_string,
};

verus! {

/// The model of a token sequence.
pub open spec fn toks_view(v: Seq<SpannedToken>) -> Seq<SpecSpanned> {
    Seq::new(v.len(), |i: int| v[i]@)
}

/// `r` is what `s` says: on success the same value, with the parser at the
/// position `s` gives; on failure the same message.
pub open spec fn agrees<T: View>(r: Result<T, String>, s: Parsed<T::V>, p: int) -> bool {
    match s {
        Ok((v, q)) => match r {
            Ok(x) => x@ == v && p == q,
            Err(_) => false,
        },
        Err(m) => match r {
            Ok(_) => false,
            Err(e) => e@ == m,
        },
    }
}

/// `r` is what `s` says, its value taken through `view`.
pub open spec fn agrees_by<T, V>(r: Result<T, String>, s: Parsed<V>, p: int, view: spec_fn(T) -> V) -> bool {
    match s {
        Ok((v, q)) => match r {
            Ok(x) => view(x) == v && p == q,
            Err(_) => false,
        },
        Err(m) => match r {
            Ok(_) => false,
            Err(e) => e@ == m,
        },
    }
}

/// The operator that `s` names, if it names one.
fn binop_of(s: &String) -> (r: Option<BinOpKind>)
    ensures
        r == grammar::binop_kind(s@),
{
    let s = s.as_str();
    if str_eq(s, "+") {
        Some(BinOpKind::Add)
    } else if str_eq(s, "-") {
        Some(BinOpKind::Sub)
    } else if str_eq(s, "*") {
        Some(BinOpKind::Mul)
    } else if str_eq(s, "/") {
        Some(BinOpKind::Div)
    } else if str_eq(s, "%") {
        Some(BinOpKind::Rem)
    } else if str_eq(s, "=") {
        Some(BinOpKind::Eq)
    } else if str_eq(s, "!=") {
        Some(BinOpKind::NotEq)
    } else if str_eq(s, "<") {
        Some(BinOpKind::Lt)
    } else if str_eq(s, ">") {
        Some(BinOpKind::Gt)
    } else if str_eq(s, "<=") {
        Some(BinOpKind::LtEq)
    } else if str_eq(s, ">=") {
        Some(BinOpKind::GtEq)
    } else if str_eq(s, "and") {
        Some(BinOpKind::And)
    } else if str_eq(s, "or") {
        Some(BinOpKind::Or)
    } else if str_eq(s, "bit-and") {
        Some(BinOpKind::BitAnd)
    } else if str_eq(s, "bit-or") {
        Some(BinOpKind::BitOr)
    } else if str_eq(s, "bit-xor") {
        Some(BinOpKind::BitXor)
    } else if str_eq(s, "shl") {
        Some(BinOpKind::Shl)
    } else if str_eq(s, "shr") {
        Some(BinOpKind::Shr)
    } else {
        None
    }
}

/// One more operand folds onto the left of the ones before it.
proof fn lemma_fold_step(op: BinOpKind, all: Seq<crate::ast::SpecExpr>, k: int)
    requires
        1 <= k < all.len(),
    ensures
        grammar::fold_binop(op, all.take(k + 1)) == (crate::ast::SpecExpr::BinOp {
            op,
            left: Box::new(grammar::fold_binop(op, all.take(k))),
            right: Box::new(all[k]),
        }),
{
    assert(all.take(k + 1).drop_last() =~= all.take(k));
}

/// Whether two tokens are the same.
pub fn same_token(a: &Token, b: &Token) -> (r: bool)
    ensures
        r == (a@ == b@),
{
    match (a, b) {
        (Token::LParen, Token::LParen) => true,
        (Token::RParen, Token::RParen) => true,
        (Token::LBracket, Token::LBracket) => true,
        (Token::RBracket, Token::RBracket) => true,
        (Token::LBrace, Token::LBrace) => true,
        (Token::RBrace, Token::RBrace) => true,
        (Token::Symbol(x), Token::Symbol(y)) => str_eq(x.as_str(), y.as_str()),
        (Token::String(x), Token::String(y)) => str_eq(x.as_str(), y.as_str()),
        (Token::Integer(x), Token::Integer(y)) => *x == *y,
        (Token::Float(x), Token::Float(y)) => str_eq(x.as_str(), y.as_str()),
        (Token::Char(x), Token::Char(y)) => *x == *y,
        (Token::Keyword(x), Token::Keyword(y)) => str_eq(x.as_str(), y.as_str()),
        (Token::Bool(x), Token::Bool(y)) => *x == *y,
        (Token::Nil, Token::Nil) => true,
        (Token::Ampersand, Token::Ampersand) => true,
        (Token::At, Token::At) => true,
        (Token::Hash, Token::Hash) => true,
        (Token::Arrow, Token::Arrow) => true,
        (Token::FatArrow, Token::FatArrow) => true,
        (Token::Dot, Token::Dot) => true,
        (Token::DotDot, Token::DotDot) => true,
        (Token::DotDotEq, Token::DotDotEq) => true,
        (Token::Tilde, Token::Tilde) => true,
        (Token::Quote, Token::Quote) => true,
        _ => false,
    }
}

/// Significant digits and an exponent in scientific notation.
fn sci_text_exec(digits: &Vec<char>, exp: &str) -> (r: String)
    ensures
        r@ == grammar::sci_text(digits@, exp@),
{
    let mut r = empty_string();
    if digits.len() <= 1 {
        push_str(&mut r, string_from_chars(digits).as_str());
    } else {
        push_char(&mut r, digits[0]);
        push_str(&mut r, ".");
        let rest = crate::text::take_chars(digits, 1, digits.len());
        assert(digits@.subrange(1, digits@.len() as int) =~= digits@.drop_first());
        push_str(&mut r, rest.as_str());
    }
    push_str(&mut r, "e");
    push_str(&mut r, exp);
    r
}

/// How `{:?}` writes a non-negative float whose `Display` text is `a`.
fn float_abs_debug_text(a: &Vec<char>) -> (r: String)
    ensures
        r@ == grammar::float_abs_debug(a@),
{
    if a.len() == 0 || !('0' <= a[0] && a[0] <= '9') {
        return string_from_chars(a);
    }
    if !crate::text::contains_char(a, '.') {
        if a.len() >= 17 {
            let whole = string_from_chars(a);
            let digits = chars_of_string(&crate::text::trim_end_char_str(whole.as_str(), '0'));
            let exp = usize_to_string(a.len() - 1);
            return sci_text_exec(&digits, exp.as_str());
        } else {
            let mut r = string_from_chars(a);
            push_str(&mut r, ".0");
            return r;
        }
    }
    if a.len() >= 6 && a[0] == '0' && a[1] == '.' && a[2] == '0' && a[3] == '0' && a[4] == '0' && a[5] == '0' {
        let ghost f = a@.skip(2);
        let mut z: usize = 2;
        assert(a@.skip(2) == f);
        while z < a.len() && a[z] == '0'
            invariant
                2 <= z <= a.len(),
                f == a@.skip(2),
                grammar::leading_zeros(f) == (z - 2) + grammar::leading_zeros(a@.skip(z as int)),
            decreases a.len() - z,
        {
            assert(a@.skip(z as int).drop_first() =~= a@.skip(z + 1));
            z += 1;
        }
        assert(f.skip(z - 2) =~= a@.skip(z as int));
        let digits = chars_of_string(&crate::text::take_chars(a, z, a.len()));
        assert(a@.subrange(z as int, a@.len() as int) =~= a@.skip(z as int));
        let mut exp = string_of("-");
        push_str(&mut exp, usize_to_string(z - 1).as_str());
        return sci_text_exec(&digits, exp.as_str());
    }
    string_from_chars(a)
}

/// How `{:?}` writes a float whose `Display` text is `s`.
fn float_debug_text(s: &str) -> (r: String)
    ensures
        r@ == grammar::float_debug(s@),
{
    let cs = chars_of(s);
    if cs.len() > 0 && cs[0] == '-' {
        let rest = chars_of_string(&crate::text::take_chars(&cs, 1, cs.len()));
        assert(s@.subrange(1, s@.len() as int) =~= s@.drop_first());
        let mut r = empty_string();
        push_char(&mut r, '-');
        push_str(&mut r, float_abs_debug_text(&rest).as_str());
        r
    } else {
        float_abs_debug_text(&cs)
    }
}

/// How a token is written by `{:?}`.
pub fn token_debug(k: &Token) -> (r: String)
    ensures
        r@ == tok_debug(k@),
{
    match k {
        Token::LParen => string_of("LParen"),
        Token::RParen => string_of("RParen"),
        Token::LBracket => string_of("LBracket"),
        Token::RBracket => string_of("RBracket"),
        Token::LBrace => string_of("LBrace"),
        Token::RBrace => string_of("RBrace"),
        Token::Symbol(s) => wrapped("Symbol(", &str_debug(s.as_str())),
        Token::String(s) => wrapped("String(", &str_debug(s.as_str())),
        Token::Integer(n) => wrapped("Integer(", &i64_to_string(*n)),
        Token::Float(s) => wrapped("Float(", &float_debug_text(s.as_str())),
        Token::Char(c) => wrapped("Char(", &char_debug(*c)),
        Token::Keyword(s) => wrapped("Keyword(", &str_debug(s.as_str())),
        Token::Bool(b) => if *b { string_of("Bool(true)") } else { string_of("Bool(false)") },
        Token::Nil => string_of("Nil"),
        Token::Ampersand => string_of("Ampersand"),
        Token::At => string_of("At"),
        Token::Hash => string_of("Hash"),
        Token::Arrow => string_of("Arrow"),
        Token::FatArrow => string_of("FatArrow"),
        Token::Dot => string_of("Dot"),
        Token::DotDot => string_of("DotDot"),
        Token::DotDotEq => string_of("DotDotEq"),
        Token::Tilde => string_of("Tilde"),
        Token::Quote => string_of("Quote"),
    }
}

/// `open`, then `inner`, then `)`.
fn wrapped(open: &str, inner: &String) -> (r: String)
    ensures
        r@ == open@ + inner@ + ")"@,
{
    let mut r = string_of(open);
    push_str(&mut r, inner.as_str());
    push_str(&mut r, ")");
    r
}

/// How an optional token is written by `{:?}`.
fn opt_token_debug(k: &Option<Token>) -> (r: String)
    ensures
        r@ == opt_tok_debug(match k {
            Some(x) => Some(x@),
            None => None,
        }),
{
    match k {
        Some(x) => wrapped("Some(", &token_debug(x)),
        None => string_of("None"),
    }
}

/// A Clojure-style name as a Rust name: kebab-case becomes snake_case, so
/// every `-` becomes `_` (path separators `::` are left as they are).
pub fn clj_to_rust_ident(s: &str) -> (r: String)
    ensures
        r@ == ident(s@),
{
    let cs = chars_of(s);
    let mut out: Vec<char> = Vec::new();
    let mut i: usize = 0;
    while i < cs.len()
        invariant
            i <= cs.len(),
            cs@ == s@,
            out@ == ident(s@).take(i as int),
        decreases cs.len() - i,
    {
        if cs[i] == '-' {
            out.push('_');
        } else {
            out.push(cs[i]);
        }
        assert(ident(s@).take(i + 1) == ident(s@).take(i as int).push(ident(s@)[i as int]));
        i += 1;
    }
    assert(ident(s@).take(cs.len() as int) == ident(s@));
    string_from_chars(&out)
}

/// A parser over a token sequence, standing at a position in it.
pub struct Parser {
    tokens: Vec<SpannedToken>,
    pos: usize,
}

impl Parser {
    /// The tokens being parsed.
    pub closed spec fn toks(&self) -> Seq<SpecSpanned> {
        toks_view(self.tokens@)
    }

    /// The position of the next token.
    pub closed spec fn at(&self) -> int {
        self.pos as int
    }

    /// The position is within the tokens.
    pub closed spec fn wf(&self) -> bool {
        self.pos <= self.tokens.len()
    }

    /// A parser at the first of `tokens`.
    pub fn new(tokens: Vec<SpannedToken>) -> (r: Self)
        ensures
            r.toks() == toks_view(tokens@),
            r.at() == 0,
            r.wf(),
    {
        Parser { tokens, pos: 0 }
    }

    /// A copy of the next token, if there is one.
    fn peek(&self) -> (r: Option<Token>)
        ensures
            match r {
                Some(x) => tok_at(self.toks(), self.at()) == Some(x@),
                None => tok_at(self.toks(), self.at()) is None,
            },
    {
        if self.pos < self.tokens.len() {
            Some(self.tokens[self.pos].token.copy())
        } else {
            None
        }
    }

    /// The next token is `k`.
    fn peek_is(&self, k: &Token) -> (r: bool)
        ensures
            r == at_tok(self.toks(), self.at(), k@),
    {
        if self.pos < self.tokens.len() {
            same_token(&self.tokens[self.pos].token, k)
        } else {
            false
        }
    }

    /// The next token is the symbol `name`.
    fn peek_symbol_is(&self, name: &str) -> (r: bool)
        ensures
            r == at_sym(self.toks(), self.at(), name@),
    {
        if self.pos < self.tokens.len() {
            match &self.tokens[self.pos].token {
                Token::Symbol(s) => str_eq(s.as_str(), name),
                _ => false,
            }
        } else {
            false
        }
    }

    /// The symbol after the opening parenthesis that the parser stands at.
    fn peek_list_head(&self) -> (r: Option<String>)
        requires
            self.wf(),
        ensures
            match r {
                Some(s) => grammar::list_head(self.toks(), self.at()) == Some(s@),
                None => grammar::list_head(self.toks(), self.at()) is None,
            },
    {
        if self.pos < self.tokens.len() && self.pos + 1 < self.tokens.len() {
            if let Token::Symbol(s) = &self.tokens[self.pos + 1].token {
                return Some(string_of(s.as_str()));
            }
        }
        None
    }

    /// The line of the next token, or 0 at the end.
    fn current_line(&self) -> (r: usize)
        ensures
            r == grammar::line_at(self.toks(), self.at()),
    {
        if self.pos < self.tokens.len() {
            self.tokens[self.pos].span.line
        } else {
            0
        }
    }

    /// Consumes and returns the next token.
    fn advance(&mut self) -> (r: Result<Token, String>)
        requires
            old(self).wf(),
        ensures
            final(self).wf(),
            final(self).toks() == old(self).toks(),
            agrees(r, grammar::advance(old(self).toks(), old(self).at()), final(self).at()),
            r is Ok ==> final(self).at() == old(self).at() + 1,
    {
        if self.pos >= self.tokens.len() {
            return Err(string_of("Unexpected end of input"));
        }
        let tok = self.tokens[self.pos].token.copy();
        self.pos += 1;
        Ok(tok)
    }

    /// Consumes the token `k`.
    fn expect(&mut self, k: &Token) -> (r: Result<(), String>)
        requires
            old(self).wf(),
        ensures
            final(self).wf(),
            final(self).toks() == old(self).toks(),
            agrees(r, grammar::expect(old(self).toks(), old(self).at(), k@), final(self).at()),
            r is Ok ==> final(self).at() == old(self).at() + 1,
    {
        let tok = self.advance()?;
        if same_token(&tok, k) {
            Ok(())
        } else {
            let mut m = string_of("Expected ");
            push_str(&mut m, token_debug(k).as_str());
            push_str(&mut m, ", got ");
            push_str(&mut m, token_debug(&tok).as_str());
            Err(m)
        }
    }
}

impl Parser {
    /// Consumes the symbol `name`.
    fn expect_symbol(&mut self, name: &str) -> (r: Result<(), String>)
        requires
            old(self).wf(),
        ensures
            final(self).wf(),
            final(self).toks() == old(self).toks(),
            agrees(r, grammar::expect_symbol(old(self).toks(), old(self).at(), name@), final(self).at()),
            r is Ok ==> final(self).at() == old(self).at() + 1,
    {
        let tok = self.advance()?;
        match &tok {
            Token::Symbol(s) => {
                if str_eq(s.as_str(), name) {
                    return Ok(());
                }
            },
            _ => {},
        }
        let mut m = string_of("Expected symbol '");
        push_str(&mut m, name);
        push_str(&mut m, "', got ");
        push_str(&mut m, token_debug(&tok).as_str());
        Err(m)
    }

    /// Consumes any symbol and returns it.
    fn expect_any_symbol(&mut self) -> (r: Result<String, String>)
        requires
            old(self).wf(),
        ensures
            final(self).wf(),
            final(self).toks() == old(self).toks(),
            agrees(r, grammar::expect_any_symbol(old(self).toks(), old(self).at()), final(self).at()),
            r is Ok ==> final(self).at() == old(self).at() + 1,
    {
        let tok = self.advance()?;
        match tok {
            Token::Symbol(s) => Ok(s),
            other => Err(wrapped_after("Expected symbol, got ", &token_debug(&other))),
        }
    }

    // ── Types ───────────────────────────────────────────────────────────

    /// A type, as Rust text.
    fn parse_type_str(&mut self) -> (r: Result<String, String>)
        requires
            old(self).wf(),
        ensures
            final(self).wf(),
            final(self).toks() == old(self).toks(),
            agrees(r, grammar::type_str(old(self).toks(), old(self).at()), final(self).at()),
            r is Ok ==> old(self).at() < final(self).at(),
        decreases old(self).toks().len() - old(self).at(), 1int,
    {
        let ghost t = self.toks();
        let mut ty = empty_string();
        if self.peek_is(&Token::Ampersand) {
            self.advance()?;
            if self.peek_symbol_is("mut") {
                self.advance()?;
                ty = string_of("&mut ");
            } else {
                ty = string_of("&");
            }
        }
        match self.peek() {
            Some(Token::Symbol(s)) => {
                self.advance()?;
                push_str(&mut ty, clj_to_rust_ident(s.as_str()).as_str());
                if self.peek_symbol_is("<") {
                    self.advance()?;
                    push_str(&mut ty, "<");
                    return self.parse_type_args(ty);
                }
                Ok(ty)
            },
            Some(Token::LBracket) => self.parse_bracket_type(ty),
            Some(Token::LParen) => self.parse_paren_type(ty),
            other => Err(wrapped_after("Expected type, got ", &opt_token_debug(&other))),
        }
    }

    /// The arguments of a generic type after its `<`, up to and with `>`,
    /// appended to `ty`.
    fn parse_type_args(&mut self, acc: String) -> (r: Result<String, String>)
        requires
            old(self).wf(),
        ensures
            final(self).wf(),
            final(self).toks() == old(self).toks(),
            agrees(r, grammar::type_args(old(self).toks(), old(self).at(), acc@, true), final(self).at()),
            r is Ok ==> old(self).at() < final(self).at(),
        decreases old(self).toks().len() - old(self).at(), 2int,
    {
        let ghost t = self.toks();
        let ghost p0 = self.at();
        let mut ty = string_of(acc.as_str());
        let mut first = true;
        loop
            invariant_except_break
                grammar::type_args(t, p0, acc@, true) == grammar::type_args(t, self.at(), ty@, first),
            invariant
                self.wf(),
                self.toks() == t,
                t == old(self).toks(),
                p0 == old(self).at(),
                p0 <= self.at(),
            ensures
                self.wf(),
                self.toks() == t,
                p0 < self.at(),
                grammar::type_args(t, p0, acc@, true) == Ok::<(Seq<char>, int), Seq<char>>((ty@ + ">"@, self.at())),
            decreases self.tokens.len() - self.pos,
        {
            if !first {
                push_str(&mut ty, ", ");
            }
            first = false;
            let inner = self.parse_type_str()?;
            push_str(&mut ty, inner.as_str());
            if self.peek_symbol_is(">") {
                let _ = self.advance();
                break;
            }
        }
        push_str(&mut ty, ">");
        Ok(ty)
    }

    /// `[T]` or `[T N]`, after `ty`.
    fn parse_bracket_type(&mut self, prefix: String) -> (r: Result<String, String>)
        requires
            old(self).wf(),
        ensures
            final(self).wf(),
            final(self).toks() == old(self).toks(),
            agrees(r, grammar::bracket_type(old(self).toks(), old(self).at(), prefix@), final(self).at()),
            r is Ok ==> old(self).at() < final(self).at(),
        decreases old(self).toks().len() - old(self).at(), 0int,
    {
        let mut ty = prefix;
        self.advance()?;
        let inner = self.parse_type_str()?;
        if self.peek_is(&Token::RBracket) {
            self.advance()?;
            push_str(&mut ty, "Vec<");
            push_str(&mut ty, inner.as_str());
            push_str(&mut ty, ">");
        } else {
            let size = self.expect_any_symbol()?;
            self.expect(&Token::RBracket)?;
            push_str(&mut ty, "[");
            push_str(&mut ty, inner.as_str());
            push_str(&mut ty, "; ");
            push_str(&mut ty, size.as_str());
            push_str(&mut ty, "]");
        }
        Ok(ty)
    }

    /// `(Fn [A ..] -> R)` or `(A ..)`, after `ty`.
    fn parse_paren_type(&mut self, prefix: String) -> (r: Result<String, String>)
        requires
            old(self).wf(),
        ensures
            final(self).wf(),
            final(self).toks() == old(self).toks(),
            agrees(r, grammar::paren_type(old(self).toks(), old(self).at(), prefix@), final(self).at()),
            r is Ok ==> old(self).at() < final(self).at(),
        decreases old(self).toks().len() - old(self).at(), 0int,
    {
        let mut ty = prefix;
        self.advance()?;
        if self.peek_symbol_is("Fn") || self.peek_symbol_is("fn") {
            self.advance()?;
            self.expect(&Token::LBracket)?;
            let params = self.parse_types_until(&Token::RBracket)?;
            self.expect(&Token::RBracket)?;
            let ret = if self.peek_is(&Token::Arrow) {
                self.advance()?;
                self.parse_type_str()?
            } else {
                string_of("()")
            };
            self.expect(&Token::RParen)?;
            push_str(&mut ty, "fn(");
            push_str(&mut ty, join_strings(&params, ", ").as_str());
            push_str(&mut ty, ") -> ");
            push_str(&mut ty, ret.as_str());
        } else {
            let types = self.parse_types_until(&Token::RParen)?;
            self.expect(&Token::RParen)?;
            push_str(&mut ty, "(");
            push_str(&mut ty, join_strings(&types, ", ").as_str());
            push_str(&mut ty, ")");
        }
        Ok(ty)
    }

    /// Types up to (not including) `close`.
    fn parse_types_until(&mut self, close: &Token) -> (r: Result<Vec<String>, String>)
        requires
            old(self).wf(),
        ensures
            final(self).wf(),
            final(self).toks() == old(self).toks(),
            match grammar::types_until(old(self).toks(), old(self).at(), close@, Seq::empty()) {
                Ok((v, p)) => r is Ok && strs_view(r->Ok_0@) == v && final(self).at() == p,
                Err(m) => r is Err && r->Err_0@ == m,
            },
            r is Ok ==> old(self).at() <= final(self).at(),
        decreases old(self).toks().len() - old(self).at(), 2int,
    {
        let ghost t = self.toks();
        let ghost p0 = self.at();
        let mut v: Vec<String> = Vec::new();
        assert(strs_view(v@) =~= Seq::<Seq<char>>::empty());
        while !self.peek_is(close)
            invariant
                self.wf(),
                self.toks() == t,
                t == old(self).toks(),
                p0 <= self.at(),
                p0 == old(self).at(),
                grammar::types_until(t, p0, close@, Seq::empty()) == grammar::types_until(
                    t,
                    self.at(),
                    close@,
                    strs_view(v@),
                ),
            decreases self.tokens.len() - self.pos,
        {
            let ty = self.parse_type_str()?;
            proof {
                assert(strs_view(v@.push(ty)) =~= strs_view(v@).push(ty@));
            }
            v.push(ty);
        }
        Ok(v)
    }
}

/// `prefix` followed by `text`.
fn wrapped_after(prefix: &str, text: &String) -> (r: String)
    ensures
        r@ == prefix@ + text@,
{
    let mut r = string_of(prefix);
    push_str(&mut r, text.as_str());
    r
}

impl Parser {
    // ── Expressions ─────────────────────────────────────────────────────

    /// An expression.
    pub fn parse_expr(&mut self) -> (r: Result<Expr, String>)
        requires
            old(self).wf(),
        ensures
            final(self).wf(),
            final(self).toks() == old(self).toks(),
            agrees(r, grammar::expr(old(self).toks(), old(self).at()), final(self).at()),
            r is Ok ==> old(self).at() < final(self).at(),
        decreases old(self).toks().len() - old(self).at(), 1int,
    {
        match self.peek() {
            Some(Token::Integer(n)) => {
                self.advance()?;
                Ok(Expr::Integer(n))
            },
            Some(Token::Float(f)) => {
                self.advance()?;
                Ok(Expr::Float(f))
            },
            Some(Token::String(s)) => {
                self.advance()?;
                Ok(Expr::Str(s))
            },
            Some(Token::Char(c)) => {
                self.advance()?;
                Ok(Expr::Char(c))
            },
            Some(Token::Bool(b)) => {
                self.advance()?;
                Ok(Expr::Bool(b))
            },
            Some(Token::Nil) => {
                self.advance()?;
                Ok(Expr::Nil)
            },
            Some(Token::Keyword(k)) => {
                self.advance()?;
                Ok(Expr::Keyword(k))
            },
            Some(Token::Symbol(s)) => {
                self.advance()?;
                Ok(Expr::Symbol(clj_to_rust_ident(s.as_str())))
            },
            Some(Token::Ampersand) => {
                self.advance()?;
                if self.peek_symbol_is("mut") {
                    self.advance()?;
                    let inner = self.parse_expr()?;
                    Ok(Expr::RefMut(Box::new(inner)))
                } else {
                    let inner = self.parse_expr()?;
                    Ok(Expr::Ref(Box::new(inner)))
                }
            },
            Some(Token::At) => {
                self.advance()?;
                let inner = self.parse_expr()?;
                Ok(Expr::Deref(Box::new(inner)))
            },
            Some(Token::LBracket) => self.parse_vec_literal(),
            Some(Token::LBrace) => self.parse_hashmap_literal(),
            Some(Token::Tilde) => {
                self.advance()?;
                match self.advance()? {
                    Token::String(s) => Ok(Expr::RawRust(s)),
                    _ => Err(string_of("Expected string after ~ for raw Rust code")),
                }
            },
            Some(Token::LParen) => self.parse_list_expr(),
            other => {
                let mut m = string_of("Unexpected token ");
                push_str(&mut m, opt_token_debug(&other).as_str());
                push_str(&mut m, " at line ");
                push_str(&mut m, usize_to_string(self.current_line()).as_str());
                Err(m)
            },
        }
    }

    /// Expressions up to (not including) `close`.
    fn parse_exprs_until(&mut self, close: &Token) -> (r: Result<Vec<Expr>, String>)
        requires
            old(self).wf(),
        ensures
            final(self).wf(),
            final(self).toks() == old(self).toks(),
            agrees_by(
                r,
                grammar::exprs_until(old(self).toks(), old(self).at(), close@, Seq::empty()),
                final(self).at(),
                |v: Vec<Expr>| exprs_view(v@),
            ),
            r is Ok ==> old(self).at() <= final(self).at(),
        decreases old(self).toks().len() - old(self).at(), 2int,
    {
        let ghost t = self.toks();
        let ghost p0 = self.at();
        let mut v: Vec<Expr> = Vec::new();
        assert(exprs_view(v@) =~= Seq::<crate::ast::SpecExpr>::empty());
        while !self.peek_is(close)
            invariant
                self.wf(),
                self.toks() == t,
                t == old(self).toks(),
                p0 == old(self).at(),
                p0 <= self.at(),
                grammar::exprs_until(t, p0, close@, Seq::empty()) == grammar::exprs_until(
                    t,
                    self.at(),
                    close@,
                    exprs_view(v@),
                ),
            decreases self.tokens.len() - self.pos,
        {
            let e = self.parse_expr()?;
            let ghost before = v@;
            let ghost ev = e@;
            v.push(e);
            assert(exprs_view(v@) =~= exprs_view(before).push(ev));
        }
        Ok(v)
    }

    /// Expressions up to `)`, then the `)`.
    fn parse_exprs_closed(&mut self) -> (r: Result<Vec<Expr>, String>)
        requires
            old(self).wf(),
        ensures
            final(self).wf(),
            final(self).toks() == old(self).toks(),
            agrees_by(
                r,
                grammar::exprs_closed(old(self).toks(), old(self).at()),
                final(self).at(),
                |v: Vec<Expr>| exprs_view(v@),
            ),
            r is Ok ==> old(self).at() < final(self).at(),
        decreases old(self).toks().len() - old(self).at(), 3int,
    {
        let es = self.parse_exprs_until(&Token::RParen)?;
        self.expect(&Token::RParen)?;
        Ok(es)
    }

    /// `[a b c]`.
    fn parse_vec_literal(&mut self) -> (r: Result<Expr, String>)
        requires
            old(self).wf(),
        ensures
            final(self).wf(),
            final(self).toks() == old(self).toks(),
            agrees(r, grammar::vec_literal(old(self).toks(), old(self).at()), final(self).at()),
            r is Ok ==> old(self).at() < final(self).at(),
        decreases old(self).toks().len() - old(self).at(), 0int,
    {
        self.expect(&Token::LBracket)?;
        let elems = self.parse_exprs_until(&Token::RBracket)?;
        self.expect(&Token::RBracket)?;
        Ok(Expr::Vec(elems))
    }

    /// `{k1 v1 k2 v2 ..}`.
    fn parse_hashmap_literal(&mut self) -> (r: Result<Expr, String>)
        requires
            old(self).wf(),
        ensures
            final(self).wf(),
            final(self).toks() == old(self).toks(),
            agrees(r, grammar::hashmap_literal(old(self).toks(), old(self).at()), final(self).at()),
            r is Ok ==> old(self).at() < final(self).at(),
        decreases old(self).toks().len() - old(self).at(), 0int,
    {
        self.expect(&Token::LBrace)?;
        let ghost t = self.toks();
        let ghost p1 = self.at();
        let mut pairs: Vec<(Expr, Expr)> = Vec::new();
        assert(pairs_view(pairs@) =~= Seq::<(crate::ast::SpecExpr, crate::ast::SpecExpr)>::empty());
        while !self.peek_is(&Token::RBrace)
            invariant
                self.wf(),
                self.toks() == t,
                t == old(self).toks(),
                p1 == old(self).at() + 1,
                p1 <= self.at(),
                at_tok(t, old(self).at(), SpecToken::LBrace),
                grammar::pairs_until(t, p1, Seq::empty()) == grammar::pairs_until(t, self.at(), pairs_view(pairs@)),
            decreases self.tokens.len() - self.pos,
        {
            let key = self.parse_expr()?;
            let val = self.parse_expr()?;
            let ghost before = pairs@;
            let ghost kv = (key@, val@);
            pairs.push((key, val));
            assert(pairs_view(pairs@) =~= pairs_view(before).push(kv));
        }
        self.expect(&Token::RBrace)?;
        Ok(Expr::HashMap(pairs))
    }

    /// A parenthesised form.
    fn parse_list_expr(&mut self) -> (r: Result<Expr, String>)
        requires
            old(self).wf(),
        ensures
            final(self).wf(),
            final(self).toks() == old(self).toks(),
            agrees(r, grammar::list_expr(old(self).toks(), old(self).at()), final(self).at()),
            r is Ok ==> old(self).at() < final(self).at(),
        decreases old(self).toks().len() - old(self).at(), 0int,
    {
        self.expect(&Token::LParen)?;
        if self.peek_is(&Token::RParen) {
            self.advance()?;
            let v: Vec<Expr> = Vec::new();
            assert(exprs_view(v@) =~= Seq::<crate::ast::SpecExpr>::empty());
            return Ok(Expr::Tuple(v));
        }
        match self.peek() {
            Some(Token::Symbol(s)) => self.parse_form(&s),
            Some(Token::DotDot) => self.parse_range(false),
            Some(Token::DotDotEq) => self.parse_range(true),
            _ => self.parse_call(),
        }
    }

    /// The form whose head symbol `s` the parser stands at.
    fn parse_form(&mut self, s: &String) -> (r: Result<Expr, String>)
        requires
            old(self).wf(),
            at_sym(old(self).toks(), old(self).at(), s@),
        ensures
            final(self).wf(),
            final(self).toks() == old(self).toks(),
            agrees(r, grammar::form(old(self).toks(), old(self).at(), s@), final(self).at()),
            r is Ok ==> old(self).at() < final(self).at(),
        decreases old(self).toks().len() - old(self).at(), 4int,
    {
        let h = s.as_str();
        if str_eq(h, "let") || str_eq(h, "let-mut") {
            self.parse_let(str_eq(h, "let-mut"))
        } else if str_eq(h, "if") {
            self.parse_if()
        } else if str_eq(h, "do") {
            self.parse_do()
        } else if str_eq(h, "fn") {
            self.parse_fn_expr()
        } else if str_eq(h, "match") {
            self.parse_match()
        } else if str_eq(h, "for") {
            self.parse_for()
        } else if str_eq(h, "while") {
            self.parse_while()
        } else if str_eq(h, "loop") {
            self.parse_loop()
        } else if str_eq(h, "recur") {
            self.parse_recur()
        } else if str_eq(h, "set!") {
            self.parse_set()
        } else if str_eq(h, "return") {
            self.parse_return()
        } else if str_eq(h, "break") {
            self.parse_break()
        } else if str_eq(h, "continue") {
            self.parse_continue()
        } else if str_eq(h, "as") {
            self.parse_as()
        } else if str_eq(h, "try!") || str_eq(h, "?") {
            self.parse_try()
        } else if str_eq(h, "await") {
            self.parse_await()
        } else if str_eq(h, "new") {
            self.parse_struct_init()
        } else if str_eq(h, "get") {
            self.parse_index()
        } else if str_eq(h, "tuple") {
            self.parse_tuple()
        } else if binop_of(s).is_some() {
            self.parse_binop(s)
        } else if str_eq(h, "not") || str_eq(h, "neg") {
            self.parse_unary(str_eq(h, "not"))
        } else if str_eq(h, "..") {
            self.parse_range(false)
        } else if str_eq(h, "..=") {
            self.parse_range(true)
        } else if starts_method(s) {
            self.parse_method_call(s)
        } else if ends_bang(s) {
            self.parse_macro_call(s)
        } else if last_path_sep(s).is_some() {
            self.parse_static_call(s)
        } else {
            self.parse_call()
        }
    }

    /// A call: the callee, the arguments, then `)`.
    fn parse_call(&mut self) -> (r: Result<Expr, String>)
        requires
            old(self).wf(),
        ensures
            final(self).wf(),
            final(self).toks() == old(self).toks(),
            agrees(r, grammar::call(old(self).toks(), old(self).at()), final(self).at()),
            r is Ok ==> old(self).at() < final(self).at(),
        decreases old(self).toks().len() - old(self).at(), 3int,
    {
        let func = self.parse_expr()?;
        let args = self.parse_exprs_closed()?;
        Ok(Expr::Call { func: Box::new(func), args })
    }
}

/// The symbol begins with `.` and has more after it.
fn starts_method(s: &String) -> (r: bool)
    ensures
        r == (s@.len() > 1 && s@[0] == '.'),
{
    let cs = chars_of(s.as_str());
    cs.len() > 1 && cs[0] == '.'
}

/// The symbol ends with `!`.
fn ends_bang(s: &String) -> (r: bool)
    ensures
        r == (s@.len() > 0 && s@.last() == '!'),
{
    let cs = chars_of(s.as_str());
    cs.len() > 0 && cs[cs.len() - 1] == '!'
}

/// The index of the last `::` in `s`, if it holds one.
fn last_path_sep(s: &String) -> (r: Option<usize>)
    ensures
        match r {
            Some(k) => grammar::has_path_sep(s@) && k == grammar::last_sep(s@, s@.len() - 2),
            None => !grammar::has_path_sep(s@),
        },
{
    let cs = chars_of(s.as_str());
    if cs.len() < 2 {
        return None;
    }
    let mut i: usize = cs.len() - 1;
    while i > 0
        invariant
            cs@ == s@,
            cs.len() >= 2,
            0 <= i <= cs.len() - 1,
            grammar::last_sep(s@, s@.len() - 2) == grammar::last_sep(s@, i - 1),
        decreases i,
    {
        if cs[i - 1] == ':' && cs[i] == ':' {
            return Some(i - 1);
        }
        i -= 1;
    }
    None
}

impl Parser {
    /// `(do expr ..)`.
    fn parse_do(&mut self) -> (r: Result<Expr, String>)
        requires
            old(self).wf(),
        ensures
            final(self).wf(),
            final(self).toks() == old(self).toks(),
            agrees(r, grammar::seq_form(old(self).toks(), old(self).at(), 0), final(self).at()),
            r is Ok ==> old(self).at() < final(self).at(),
        decreases old(self).toks().len() - old(self).at(), 0int,
    {
        self.advance()?;
        let exprs = self.parse_exprs_closed()?;
        Ok(Expr::Do(exprs))
    }

    /// `(recur arg ..)`.
    fn parse_recur(&mut self) -> (r: Result<Expr, String>)
        requires
            old(self).wf(),
        ensures
            final(self).wf(),
            final(self).toks() == old(self).toks(),
            agrees(r, grammar::seq_form(old(self).toks(), old(self).at(), 1), final(self).at()),
            r is Ok ==> old(self).at() < final(self).at(),
        decreases old(self).toks().len() - old(self).at(), 0int,
    {
        self.advance()?;
        let args = self.parse_exprs_closed()?;
        Ok(Expr::Recur(args))
    }

    /// `(tuple expr ..)`.
    fn parse_tuple(&mut self) -> (r: Result<Expr, String>)
        requires
            old(self).wf(),
        ensures
            final(self).wf(),
            final(self).toks() == old(self).toks(),
            agrees(r, grammar::seq_form(old(self).toks(), old(self).at(), 2), final(self).at()),
            r is Ok ==> old(self).at() < final(self).at(),
        decreases old(self).toks().len() - old(self).at(), 0int,
    {
        self.advance()?;
        let elems = self.parse_exprs_closed()?;
        Ok(Expr::Tuple(elems))
    }

    /// `(continue)`.
    fn parse_continue(&mut self) -> (r: Result<Expr, String>)
        requires
            old(self).wf(),
        ensures
            final(self).wf(),
            final(self).toks() == old(self).toks(),
            agrees(r, grammar::continue_form(old(self).toks(), old(self).at()), final(self).at()),
            r is Ok ==> old(self).at() < final(self).at(),
    {
        self.advance()?;
        self.expect(&Token::RParen)?;
        Ok(Expr::Continue)
    }

    /// `(set! target value)`.
    fn parse_set(&mut self) -> (r: Result<Expr, String>)
        requires
            old(self).wf(),
        ensures
            final(self).wf(),
            final(self).toks() == old(self).toks(),
            agrees(r, grammar::pair_form(old(self).toks(), old(self).at(), 0), final(self).at()),
            r is Ok ==> old(self).at() < final(self).at(),
        decreases old(self).toks().len() - old(self).at(), 0int,
    {
        self.advance()?;
        let target = self.parse_expr()?;
        let value = self.parse_expr()?;
        self.expect(&Token::RParen)?;
        Ok(Expr::Assign { target: Box::new(target), value: Box::new(value) })
    }

    /// `(get object index)`.
    fn parse_index(&mut self) -> (r: Result<Expr, String>)
        requires
            old(self).wf(),
        ensures
            final(self).wf(),
            final(self).toks() == old(self).toks(),
            agrees(r, grammar::pair_form(old(self).toks(), old(self).at(), 1), final(self).at()),
            r is Ok ==> old(self).at() < final(self).at(),
        decreases old(self).toks().len() - old(self).at(), 0int,
    {
        self.advance()?;
        let object = self.parse_expr()?;
        let index = self.parse_expr()?;
        self.expect(&Token::RParen)?;
        Ok(Expr::Index { object: Box::new(object), index: Box::new(index) })
    }

    /// `(.. start end)`, or `(..= start end)` when `inclusive`.
    fn parse_range(&mut self, inclusive: bool) -> (r: Result<Expr, String>)
        requires
            old(self).wf(),
        ensures
            final(self).wf(),
            final(self).toks() == old(self).toks(),
            agrees(r, grammar::pair_form(old(self).toks(), old(self).at(), if inclusive { 3 } else { 2 }), final(self).at()),
            r is Ok ==> old(self).at() < final(self).at(),
        decreases old(self).toks().len() - old(self).at(), 0int,
    {
        self.advance()?;
        let start = self.parse_expr()?;
        let end = self.parse_expr()?;
        self.expect(&Token::RParen)?;
        Ok(Expr::Range { start: Box::new(start), end: Box::new(end), inclusive })
    }

    /// `(return [value])`.
    fn parse_return(&mut self) -> (r: Result<Expr, String>)
        requires
            old(self).wf(),
        ensures
            final(self).wf(),
            final(self).toks() == old(self).toks(),
            agrees(r, grammar::opt_value_form(old(self).toks(), old(self).at(), true), final(self).at()),
            r is Ok ==> old(self).at() < final(self).at(),
        decreases old(self).toks().len() - old(self).at(), 0int,
    {
        self.advance()?;
        let val = if !self.peek_is(&Token::RParen) {
            Some(Box::new(self.parse_expr()?))
        } else {
            None
        };
        self.expect(&Token::RParen)?;
        Ok(Expr::Return(val))
    }

    /// `(break [value])`.
    fn parse_break(&mut self) -> (r: Result<Expr, String>)
        requires
            old(self).wf(),
        ensures
            final(self).wf(),
            final(self).toks() == old(self).toks(),
            agrees(r, grammar::opt_value_form(old(self).toks(), old(self).at(), false), final(self).at()),
            r is Ok ==> old(self).at() < final(self).at(),
        decreases old(self).toks().len() - old(self).at(), 0int,
    {
        self.advance()?;
        let val = if !self.peek_is(&Token::RParen) {
            Some(Box::new(self.parse_expr()?))
        } else {
            None
        };
        self.expect(&Token::RParen)?;
        Ok(Expr::Break(val))
    }

    /// `(as expr Type)`.
    fn parse_as(&mut self) -> (r: Result<Expr, String>)
        requires
            old(self).wf(),
        ensures
            final(self).wf(),
            final(self).toks() == old(self).toks(),
            agrees(r, grammar::as_form(old(self).toks(), old(self).at()), final(self).at()),
            r is Ok ==> old(self).at() < final(self).at(),
        decreases old(self).toks().len() - old(self).at(), 0int,
    {
        self.advance()?;
        let expr = self.parse_expr()?;
        let ty = self.parse_type_str()?;
        self.expect(&Token::RParen)?;
        Ok(Expr::As { expr: Box::new(expr), typ_name: ty })
    }

    /// `(? expr)` or `(try! expr)`.
    fn parse_try(&mut self) -> (r: Result<Expr, String>)
        requires
            old(self).wf(),
        ensures
            final(self).wf(),
            final(self).toks() == old(self).toks(),
            agrees(r, grammar::single_form(old(self).toks(), old(self).at(), true), final(self).at()),
            r is Ok ==> old(self).at() < final(self).at(),
        decreases old(self).toks().len() - old(self).at(), 0int,
    {
        self.advance()?;
        let expr = self.parse_expr()?;
        self.expect(&Token::RParen)?;
        Ok(Expr::Try(Box::new(expr)))
    }

    /// `(await expr)`.
    fn parse_await(&mut self) -> (r: Result<Expr, String>)
        requires
            old(self).wf(),
        ensures
            final(self).wf(),
            final(self).toks() == old(self).toks(),
            agrees(r, grammar::single_form(old(self).toks(), old(self).at(), false), final(self).at()),
            r is Ok ==> old(self).at() < final(self).at(),
        decreases old(self).toks().len() - old(self).at(), 0int,
    {
        self.advance()?;
        let expr = self.parse_expr()?;
        self.expect(&Token::RParen)?;
        Ok(Expr::Await(Box::new(expr)))
    }

    /// `(not x)` when `is_not`, else `(neg x)`.
    fn parse_unary(&mut self, is_not: bool) -> (r: Result<Expr, String>)
        requires
            old(self).wf(),
        ensures
            final(self).wf(),
            final(self).toks() == old(self).toks(),
            agrees(r, grammar::unary_form(old(self).toks(), old(self).at(), is_not), final(self).at()),
            r is Ok ==> old(self).at() < final(self).at(),
        decreases old(self).toks().len() - old(self).at(), 0int,
    {
        self.advance()?;
        let op = if is_not { UnaryOpKind::Not } else { UnaryOpKind::Neg };
        let operand = self.parse_expr()?;
        self.expect(&Token::RParen)?;
        Ok(Expr::UnaryOp { op, operand: Box::new(operand) })
    }

    /// `(.method object arg ..)`, the head being `s`.
    fn parse_method_call(&mut self, s: &String) -> (r: Result<Expr, String>)
        requires
            old(self).wf(),
            s@.len() > 1,
        ensures
            final(self).wf(),
            final(self).toks() == old(self).toks(),
            agrees(r, grammar::method_call(old(self).toks(), old(self).at(), s@), final(self).at()),
            r is Ok ==> old(self).at() < final(self).at(),
        decreases old(self).toks().len() - old(self).at(), 0int,
    {
        self.advance()?;
        let cs = chars_of(s.as_str());
        let mut rest: Vec<char> = Vec::new();
        let mut i: usize = 1;
        while i < cs.len()
            invariant
                cs@ == s@,
                1 <= i <= cs.len(),
                rest@ == s@.subrange(1, i as int),
            decreases cs.len() - i,
        {
            rest.push(cs[i]);
            assert(s@.subrange(1, i + 1) == s@.subrange(1, i as int).push(s@[i as int]));
            i += 1;
        }
        let method = string_from_chars(&rest);
        let object = self.parse_expr()?;
        let args = self.parse_exprs_closed()?;
        Ok(Expr::MethodCall { object: Box::new(object), method: clj_to_rust_ident(method.as_str()), args })
    }

    /// `(name! arg ..)`, the head being `s`.
    fn parse_macro_call(&mut self, s: &String) -> (r: Result<Expr, String>)
        requires
            old(self).wf(),
        ensures
            final(self).wf(),
            final(self).toks() == old(self).toks(),
            agrees(r, grammar::macro_call(old(self).toks(), old(self).at(), s@), final(self).at()),
            r is Ok ==> old(self).at() < final(self).at(),
        decreases old(self).toks().len() - old(self).at(), 0int,
    {
        self.advance()?;
        let args = self.parse_exprs_closed()?;
        Ok(Expr::MacroCall { name: clj_to_rust_ident(s.as_str()), args })
    }

    /// `(Type::method arg ..)`, the head being `s`.
    fn parse_static_call(&mut self, s: &String) -> (r: Result<Expr, String>)
        requires
            old(self).wf(),
            grammar::has_path_sep(s@),
        ensures
            final(self).wf(),
            final(self).toks() == old(self).toks(),
            agrees(r, grammar::static_call(old(self).toks(), old(self).at(), s@), final(self).at()),
            r is Ok ==> old(self).at() < final(self).at(),
        decreases old(self).toks().len() - old(self).at(), 0int,
    {
        let k = match last_path_sep(s) {
            Some(k) => k,
            None => 0,
        };
        proof {
            grammar::lemma_last_sep(s@, s@.len() - 2);
        }
        self.advance()?;
        let cs = chars_of(s.as_str());
        let mut before: Vec<char> = Vec::new();
        let mut after: Vec<char> = Vec::new();
        let mut i: usize = 0;
        while i < cs.len()
            invariant
                cs@ == s@,
                k + 2 <= cs.len(),
                0 <= i <= cs.len(),
                before@ == s@.subrange(0, if i < k { i as int } else { k as int }),
                after@ == s@.subrange(k + 2, if i < k + 2 { k + 2 } else { i as int }),
            decreases cs.len() - i,
        {
            if i < k {
                before.push(cs[i]);
                assert(s@.subrange(0, i + 1) == s@.subrange(0, i as int).push(s@[i as int]));
            } else if i >= k + 2 {
                after.push(cs[i]);
                assert(s@.subrange(k + 2, i + 1) == s@.subrange(k + 2, i as int).push(s@[i as int]));
            }
            i += 1;
        }
        let method = clj_to_rust_ident(string_from_chars(&after).as_str());
        let typ_name = clj_to_rust_ident(string_from_chars(&before).as_str());
        let args = self.parse_exprs_closed()?;
        Ok(Expr::StaticCall { typ_name, method, args })
    }

    /// `(op a b ..)`, the head being the operator `s`.
    fn parse_binop(&mut self, s: &String) -> (r: Result<Expr, String>)
        requires
            old(self).wf(),
        ensures
            final(self).wf(),
            final(self).toks() == old(self).toks(),
            agrees(r, grammar::binop_form(old(self).toks(), old(self).at(), s@), final(self).at()),
            r is Ok ==> old(self).at() < final(self).at(),
        decreases old(self).toks().len() - old(self).at(), 0int,
    {
        self.advance()?;
        let op = match binop_of(s) {
            Some(op) => op,
            None => return Err(wrapped_after("Unknown operator: ", s)),
        };
        let mut operands = self.parse_exprs_closed()?;
        if operands.len() == 0 {
            let mut m = string_of("Operator ");
            push_str(&mut m, s.as_str());
            push_str(&mut m, " requires at least one operand");
            return Err(m);
        }
        if operands.len() == 1 {
            if op == BinOpKind::Sub {
                return Ok(Expr::UnaryOp { op: UnaryOpKind::Neg, operand: Box::new(operands.remove(0)) });
            }
            return Ok(operands.remove(0));
        }
        let ghost all = exprs_view(operands@);
        let mut result = operands.remove(0);
        assert(all.take(1) =~= seq![all[0]]);
        while operands.len() > 0
            invariant
                1 <= all.len() - operands.len() <= all.len(),
                result@ == grammar::fold_binop(op, all.take(all.len() - operands.len())),
                exprs_view(operands@) == all.skip(all.len() - operands.len()),
            decreases operands.len(),
        {
            let ghost k = all.len() - operands.len();
            proof {
                lemma_fold_step(op, all, k);
                assert(exprs_view(operands@)[0] == all[k]);
            }
            let ghost before = operands@;
            let next = operands.remove(0);
            assert forall|j: int| 0 <= j < operands@.len() implies #[trigger] exprs_view(operands@)[j] == all.skip(
                k + 1,
            )[j] by {
                assert(operands@[j] == before[j + 1]);
                assert(exprs_view(before)[j + 1] == all.skip(k)[j + 1]);
            }
            assert(exprs_view(operands@) =~= all.skip(k + 1));
            result = Expr::BinOp { op, left: Box::new(result), right: Box::new(next) };
        }
        assert(all.take(all.len() as int) == all);
        Ok(result)
    }
}

impl Parser {
    /// `(let [bindings] body ..)`; with `let-mut`, `mutable` makes every
    /// binding mutable.
    #[verifier::rlimit(40)]
    fn parse_let(&mut self, mutable: bool) -> (r: Result<Expr, String>)
        requires
            old(self).wf(),
        ensures
            final(self).wf(),
            final(self).toks() == old(self).toks(),
            agrees(r, grammar::let_form(old(self).toks(), old(self).at(), mutable), final(self).at()),
            r is Ok ==> old(self).at() < final(self).at(),
        decreases old(self).toks().len() - old(self).at(), 0int,
    {
        self.advance()?;
        self.expect(&Token::LBracket)?;
        let ghost t = self.toks();
        let ghost p1 = self.at();
        let mut bindings: Vec<LetBinding> = Vec::new();
        assert(bindings_view(bindings@) =~= Seq::<crate::ast::SpecLetBinding>::empty());
        while !self.peek_is(&Token::RBracket)
            invariant
                self.wf(),
                self.toks() == t,
                t == old(self).toks(),
                p1 == old(self).at() + 2,
                p1 <= self.at(),
                at_tok(t, old(self).at() + 1, SpecToken::LBracket),
                grammar::let_bindings(t, p1, mutable, Seq::empty()) == grammar::let_bindings(
                    t,
                    self.at(),
                    mutable,
                    bindings_view(bindings@),
                ),
            decreases self.tokens.len() - self.pos,
        {
            let is_mut = if self.peek_symbol_is("mut") {
                self.advance()?;
                true
            } else {
                mutable
            };
            let name = self.expect_any_symbol()?;
            let type_ann = if self.peek_symbol_is(":") {
                self.advance()?;
                Some(self.parse_type_str()?)
            } else {
                None
            };
            let value = self.parse_expr()?;
            let b = LetBinding { name: clj_to_rust_ident(name.as_str()), mutable: is_mut, type_ann, value };
            let ghost before = bindings@;
            let ghost bv = crate::ast::binding_view(&b);
            bindings.push(b);
            assert(bindings_view(bindings@) =~= bindings_view(before).push(bv));
        }
        self.expect(&Token::RBracket)?;
        let body = self.parse_exprs_closed()?;
        Ok(Expr::Let { bindings, body })
    }

    /// `(if cond then [else])`.
    fn parse_if(&mut self) -> (r: Result<Expr, String>)
        requires
            old(self).wf(),
        ensures
            final(self).wf(),
            final(self).toks() == old(self).toks(),
            agrees(r, grammar::if_form(old(self).toks(), old(self).at()), final(self).at()),
            r is Ok ==> old(self).at() < final(self).at(),
        decreases old(self).toks().len() - old(self).at(), 0int,
    {
        self.advance()?;
        let cond = self.parse_expr()?;
        let then = self.parse_expr()?;
        let else_ = if !self.peek_is(&Token::RParen) {
            Some(Box::new(self.parse_expr()?))
        } else {
            None
        };
        self.expect(&Token::RParen)?;
        Ok(Expr::If { cond: Box::new(cond), then: Box::new(then), else_ })
    }

    /// `(fn [params] [-> Type] body ..)`.
    fn parse_fn_expr(&mut self) -> (r: Result<Expr, String>)
        requires
            old(self).wf(),
        ensures
            final(self).wf(),
            final(self).toks() == old(self).toks(),
            agrees(r, grammar::fn_form(old(self).toks(), old(self).at()), final(self).at()),
            r is Ok ==> old(self).at() < final(self).at(),
        decreases old(self).toks().len() - old(self).at(), 0int,
    {
        self.advance()?;
        self.expect(&Token::LBracket)?;
        let params = self.parse_params()?;
        self.expect(&Token::RBracket)?;
        let ret_type = self.parse_ret_type()?;
        let body = self.parse_exprs_closed()?;
        Ok(Expr::Fn { params, ret_type, body })
    }

    /// `-> Type` when the next token is `->`.
    fn parse_ret_type(&mut self) -> (r: Result<Option<String>, String>)
        requires
            old(self).wf(),
        ensures
            final(self).wf(),
            final(self).toks() == old(self).toks(),
            agrees_by(
                r,
                grammar::ret_type(old(self).toks(), old(self).at()),
                final(self).at(),
                |o: Option<String>| crate::ast::opt_str_view(o),
            ),
            r is Ok ==> old(self).at() <= final(self).at(),
    {
        if self.peek_is(&Token::Arrow) {
            self.advance()?;
            Ok(Some(self.parse_type_str()?))
        } else {
            Ok(None)
        }
    }

    /// Function parameters up to `]`.
    fn parse_params(&mut self) -> (r: Result<Vec<Param>, String>)
        requires
            old(self).wf(),
        ensures
            final(self).wf(),
            final(self).toks() == old(self).toks(),
            agrees_by(
                r,
                grammar::params(old(self).toks(), old(self).at(), Seq::empty()),
                final(self).at(),
                |v: Vec<Param>| params_view(v@),
            ),
            r is Ok ==> old(self).at() <= final(self).at(),
    {
        let ghost t = self.toks();
        let ghost p0 = self.at();
        let mut params: Vec<Param> = Vec::new();
        assert(params_view(params@) =~= Seq::<crate::ast::SpecParam>::empty());
        while !self.peek_is(&Token::RBracket)
            invariant
                self.wf(),
                self.toks() == t,
                t == old(self).toks(),
                p0 == old(self).at(),
                p0 <= self.at(),
                grammar::params(t, p0, Seq::empty()) == grammar::params(t, self.at(), params_view(params@)),
            decreases self.tokens.len() - self.pos,
        {
            let mut is_ref = false;
            let mut is_mut_ref = false;
            let mut is_mut = false;
            if self.peek_is(&Token::Ampersand) {
                self.advance()?;
                is_ref = true;
                if self.peek_symbol_is("mut") {
                    self.advance()?;
                    is_mut_ref = true;
                    is_ref = false;
                }
            } else if self.peek_symbol_is("mut") {
                self.advance()?;
                is_mut = true;
            }
            let name = self.expect_any_symbol()?;
            let type_ann = if self.peek_symbol_is(":") {
                self.advance()?;
                Some(self.parse_type_str()?)
            } else {
                None
            };
            let p = Param { name: clj_to_rust_ident(name.as_str()), type_ann, is_ref, is_mut_ref, is_mut };
            let ghost before = params@;
            let ghost pv = crate::ast::param_view(p);
            params.push(p);
            assert(params_view(params@) =~= params_view(before).push(pv));
        }
        Ok(params)
    }

    /// `(match expr pattern body ..)`.
    fn parse_match(&mut self) -> (r: Result<Expr, String>)
        requires
            old(self).wf(),
        ensures
            final(self).wf(),
            final(self).toks() == old(self).toks(),
            agrees(r, grammar::match_form(old(self).toks(), old(self).at()), final(self).at()),
            r is Ok ==> old(self).at() < final(self).at(),
        decreases old(self).toks().len() - old(self).at(), 0int,
    {
        self.advance()?;
        let expr = self.parse_expr()?;
        let ghost t = self.toks();
        let ghost p1 = self.at();
        let mut arms: Vec<MatchArm> = Vec::new();
        assert(arms_view(arms@) =~= Seq::<crate::ast::SpecMatchArm>::empty());
        while !self.peek_is(&Token::RParen)
            invariant
                self.wf(),
                self.toks() == t,
                t == old(self).toks(),
                old(self).at() + 1 < p1 <= self.at(),
                grammar::expr(t, old(self).at() + 1) == Ok::<(crate::ast::SpecExpr, int), Seq<char>>((expr@, p1)),
                grammar::arms(t, p1, Seq::empty()) == grammar::arms(t, self.at(), arms_view(arms@)),
            decreases self.tokens.len() - self.pos,
        {
            let pattern = self.parse_pattern()?;
            let body = self.parse_expr()?;
            let arm = MatchArm { pattern, guard: None, body };
            let ghost before = arms@;
            let ghost av = crate::ast::arm_view(&arm);
            arms.push(arm);
            assert(arms_view(arms@) =~= arms_view(before).push(av));
        }
        self.expect(&Token::RParen)?;
        Ok(Expr::Match { expr: Box::new(expr), arms })
    }

    /// A pattern.
    fn parse_pattern(&mut self) -> (r: Result<Pattern, String>)
        requires
            old(self).wf(),
        ensures
            final(self).wf(),
            final(self).toks() == old(self).toks(),
            agrees(r, grammar::pattern(old(self).toks(), old(self).at()), final(self).at()),
            r is Ok ==> old(self).at() < final(self).at(),
        decreases old(self).toks().len() - old(self).at(), 2int,
    {
        match self.peek() {
            Some(Token::Symbol(s)) => {
                self.advance()?;
                if str_eq(s.as_str(), "_") {
                    return Ok(Pattern::Wildcard);
                }
                Ok(Pattern::Binding(clj_to_rust_ident(s.as_str())))
            },
            Some(Token::Integer(_)) | Some(Token::Float(_)) | Some(Token::String(_)) | Some(Token::Bool(_))
            | Some(Token::Char(_)) | Some(Token::Nil) => {
                let expr = self.parse_expr()?;
                Ok(Pattern::Literal(expr))
            },
            Some(Token::LParen) => {
                self.advance()?;
                let name = self.expect_any_symbol()?;
                let fields = self.parse_patterns_until(&Token::RParen)?;
                self.expect(&Token::RParen)?;
                Ok(Pattern::TupleStruct { name: clj_to_rust_ident(name.as_str()), fields })
            },
            Some(Token::LBracket) => {
                self.advance()?;
                let pats = self.parse_patterns_until(&Token::RBracket)?;
                self.expect(&Token::RBracket)?;
                Ok(Pattern::Tuple(pats))
            },
            other => Err(wrapped_after("Unexpected token in pattern: ", &opt_token_debug(&other))),
        }
    }

    /// Patterns up to (not including) `close`.
    fn parse_patterns_until(&mut self, close: &Token) -> (r: Result<Vec<Pattern>, String>)
        requires
            old(self).wf(),
        ensures
            final(self).wf(),
            final(self).toks() == old(self).toks(),
            agrees_by(
                r,
                grammar::patterns_until(old(self).toks(), old(self).at(), close@, Seq::empty()),
                final(self).at(),
                |v: Vec<Pattern>| patterns_view(v@),
            ),
            r is Ok ==> old(self).at() <= final(self).at(),
        decreases old(self).toks().len() - old(self).at(), 3int,
    {
        let ghost t = self.toks();
        let ghost p0 = self.at();
        let mut v: Vec<Pattern> = Vec::new();
        assert(patterns_view(v@) =~= Seq::<crate::ast::SpecPattern>::empty());
        while !self.peek_is(close)
            invariant
                self.wf(),
                self.toks() == t,
                t == old(self).toks(),
                p0 == old(self).at(),
                p0 <= self.at(),
                grammar::patterns_until(t, p0, close@, Seq::empty()) == grammar::patterns_until(
                    t,
                    self.at(),
                    close@,
                    patterns_view(v@),
                ),
            decreases self.tokens.len() - self.pos,
        {
            let pat = self.parse_pattern()?;
            let ghost before = v@;
            let ghost pv = pat@;
            v.push(pat);
            assert(patterns_view(v@) =~= patterns_view(before).push(pv));
        }
        Ok(v)
    }

    /// `(for [name iter] body ..)`.
    fn parse_for(&mut self) -> (r: Result<Expr, String>)
        requires
            old(self).wf(),
        ensures
            final(self).wf(),
            final(self).toks() == old(self).toks(),
            agrees(r, grammar::for_form(old(self).toks(), old(self).at()), final(self).at()),
            r is Ok ==> old(self).at() < final(self).at(),
        decreases old(self).toks().len() - old(self).at(), 0int,
    {
        self.advance()?;
        self.expect(&Token::LBracket)?;
        let binding = self.expect_any_symbol()?;
        let iter = self.parse_expr()?;
        self.expect(&Token::RBracket)?;
        let body = self.parse_exprs_closed()?;
        Ok(Expr::For { binding: clj_to_rust_ident(binding.as_str()), iter: Box::new(iter), body })
    }

    /// `(while cond body ..)`.
    fn parse_while(&mut self) -> (r: Result<Expr, String>)
        requires
            old(self).wf(),
        ensures
            final(self).wf(),
            final(self).toks() == old(self).toks(),
            agrees(r, grammar::while_form(old(self).toks(), old(self).at()), final(self).at()),
            r is Ok ==> old(self).at() < final(self).at(),
        decreases old(self).toks().len() - old(self).at(), 0int,
    {
        self.advance()?;
        let cond = self.parse_expr()?;
        let body = self.parse_exprs_closed()?;
        Ok(Expr::While { cond: Box::new(cond), body })
    }

    /// `(loop [name value ..] body ..)`.
    fn parse_loop(&mut self) -> (r: Result<Expr, String>)
        requires
            old(self).wf(),
        ensures
            final(self).wf(),
            final(self).toks() == old(self).toks(),
            agrees(r, grammar::loop_form(old(self).toks(), old(self).at()), final(self).at()),
            r is Ok ==> old(self).at() < final(self).at(),
        decreases old(self).toks().len() - old(self).at(), 0int,
    {
        self.advance()?;
        let mut bindings: Vec<LetBinding> = Vec::new();
        assert(bindings_view(bindings@) =~= Seq::<crate::ast::SpecLetBinding>::empty());
        if self.peek_is(&Token::LBracket) {
            self.expect(&Token::LBracket)?;
            let ghost t = self.toks();
            let ghost p1 = self.at();
            while !self.peek_is(&Token::RBracket)
                invariant
                    self.wf(),
                    self.toks() == t,
                    t == old(self).toks(),
                    p1 == old(self).at() + 2,
                    p1 <= self.at(),
                    at_tok(t, old(self).at() + 1, SpecToken::LBracket),
                    grammar::loop_bindings(t, p1, Seq::empty()) == grammar::loop_bindings(
                        t,
                        self.at(),
                        bindings_view(bindings@),
                    ),
                decreases self.tokens.len() - self.pos,
            {
                let name = self.expect_any_symbol()?;
                let value = self.parse_expr()?;
                let b = LetBinding { name: clj_to_rust_ident(name.as_str()), mutable: true, type_ann: None, value };
                let ghost before = bindings@;
                let ghost bv = crate::ast::binding_view(&b);
                bindings.push(b);
                assert(bindings_view(bindings@) =~= bindings_view(before).push(bv));
            }
            self.expect(&Token::RBracket)?;
        }
        let body = self.parse_exprs_closed()?;
        Ok(Expr::Loop { bindings, body })
    }

    /// `(new Name :field value ..)`.
    fn parse_struct_init(&mut self) -> (r: Result<Expr, String>)
        requires
            old(self).wf(),
        ensures
            final(self).wf(),
            final(self).toks() == old(self).toks(),
            agrees(r, grammar::struct_init(old(self).toks(), old(self).at()), final(self).at()),
            r is Ok ==> old(self).at() < final(self).at(),
        decreases old(self).toks().len() - old(self).at(), 0int,
    {
        self.advance()?;
        let name = self.expect_any_symbol()?;
        let ghost t = self.toks();
        let ghost p1 = self.at();
        let mut fields: Vec<(String, Expr)> = Vec::new();
        assert(named_exprs_view(fields@) =~= Seq::<(Seq<char>, crate::ast::SpecExpr)>::empty());
        while !self.peek_is(&Token::RParen)
            invariant
                self.wf(),
                self.toks() == t,
                t == old(self).toks(),
                p1 == old(self).at() + 2,
                p1 <= self.at(),
                grammar::expect_any_symbol(t, old(self).at() + 1) == Ok::<(Seq<char>, int), Seq<char>>((name@, p1)),
                grammar::init_fields(t, p1, Seq::empty()) == grammar::init_fields(
                    t,
                    self.at(),
                    named_exprs_view(fields@),
                ),
            decreases self.tokens.len() - self.pos,
        {
            match self.peek() {
                Some(Token::Keyword(k)) => {
                    self.advance()?;
                    let val = self.parse_expr()?;
                    let f = clj_to_rust_ident(k.as_str());
                    let ghost before = fields@;
                    let ghost fv = (f@, val@);
                    fields.push((f, val));
                    assert(named_exprs_view(fields@) =~= named_exprs_view(before).push(fv));
                },
                other => {
                    return Err(wrapped_after("Expected :field in struct init, got ", &opt_token_debug(&other)));
                },
            }
        }
        self.expect(&Token::RParen)?;
        Ok(Expr::StructInit { name: clj_to_rust_ident(name.as_str()), fields })
    }
}

impl Parser {
    // ── Items ───────────────────────────────────────────────────────────

    /// Top-level forms up to the end of the tokens.
    pub fn parse_program(&mut self) -> (r: Result<Program, String>)
        requires
            old(self).wf(),
        ensures
            final(self).wf(),
            final(self).toks() == old(self).toks(),
            match grammar::program_items(old(self).toks(), old(self).at(), Seq::empty()) {
                Ok(items) => r is Ok && r->Ok_0@ == SpecProgram { items },
                Err(m) => r is Err && r->Err_0@ == m,
            },
    {
        let ghost t = self.toks();
        let ghost p0 = self.at();
        let mut items: Vec<TopLevel> = Vec::new();
        assert(toplevels_view(items@) =~= Seq::<SpecTopLevel>::empty());
        while self.pos < self.tokens.len()
            invariant
                self.wf(),
                self.toks() == t,
                t == old(self).toks(),
                p0 == old(self).at(),
                grammar::program_items(t, p0, Seq::empty()) == grammar::program_items(
                    t,
                    self.at(),
                    toplevels_view(items@),
                ),
            decreases self.tokens.len() - self.pos,
        {
            let item = self.parse_top_level()?;
            let ghost before = items@;
            let ghost iv = item@;
            items.push(item);
            assert(toplevels_view(items@) =~= toplevels_view(before).push(iv));
        }
        Ok(Program { items })
    }

    /// A top-level form.
    fn parse_top_level(&mut self) -> (r: Result<TopLevel, String>)
        requires
            old(self).wf(),
        ensures
            final(self).wf(),
            final(self).toks() == old(self).toks(),
            agrees(r, grammar::top_level(old(self).toks(), old(self).at()), final(self).at()),
            r is Ok ==> old(self).at() < final(self).at(),
        decreases old(self).toks().len() - old(self).at(), 1int,
    {
        if self.peek_is(&Token::LParen) {
            if let Some(form) = self.peek_list_head() {
                let h = form.as_str();
                if str_eq(h, "use") {
                    let u = self.parse_use()?;
                    return Ok(TopLevel::Use(u));
                } else if str_eq(h, "extern-crate") {
                    let name = self.parse_extern_crate()?;
                    return Ok(TopLevel::ExternCrate(name));
                } else if str_eq(h, "def") || str_eq(h, "def-mut") || str_eq(h, "const") {
                    let d = self.parse_def()?;
                    return Ok(TopLevel::Def(d));
                } else if str_eq(h, "defn") || str_eq(h, "defn-") || str_eq(h, "defn-async") {
                    let f = self.parse_defn()?;
                    return Ok(TopLevel::Defn(f));
                } else if str_eq(h, "defstruct") {
                    let d = self.parse_defstruct()?;
                    return Ok(TopLevel::DefStruct(d));
                } else if str_eq(h, "defenum") {
                    let d = self.parse_defenum()?;
                    return Ok(TopLevel::DefEnum(d));
                } else if str_eq(h, "deftrait") {
                    let d = self.parse_deftrait()?;
                    return Ok(TopLevel::DefTrait(d));
                } else if str_eq(h, "defimpl") {
                    let d = self.parse_impl()?;
                    return Ok(TopLevel::Impl(d));
                } else if str_eq(h, "defmod") {
                    let d = self.parse_mod()?;
                    return Ok(TopLevel::Mod(d));
                } else if str_eq(h, "#!") {
                    return self.parse_attr();
                }
            }
        }
        let e = self.parse_expr()?;
        Ok(TopLevel::Expr(e))
    }

    /// `(use path)`.
    fn parse_use(&mut self) -> (r: Result<UsePath, String>)
        requires
            old(self).wf(),
        ensures
            final(self).wf(),
            final(self).toks() == old(self).toks(),
            agrees_by(r, grammar::use_form(old(self).toks(), old(self).at()), final(self).at(), |u: UsePath| u.path@),
            r is Ok ==> old(self).at() < final(self).at(),
    {
        self.expect(&Token::LParen)?;
        self.expect_symbol("use")?;
        let path = self.parse_use_path()?;
        self.expect(&Token::RParen)?;
        Ok(UsePath { path })
    }

    /// The path of a `use`, up to `)`.
    fn parse_use_path(&mut self) -> (r: Result<String, String>)
        requires
            old(self).wf(),
        ensures
            final(self).wf(),
            final(self).toks() == old(self).toks(),
            agrees(r, grammar::use_path(old(self).toks(), old(self).at(), Seq::empty()), final(self).at()),
            r is Ok ==> old(self).at() <= final(self).at(),
    {
        let ghost t = self.toks();
        let ghost p0 = self.at();
        let mut path = empty_string();
        while !self.peek_is(&Token::RParen)
            invariant
                self.wf(),
                self.toks() == t,
                t == old(self).toks(),
                p0 == old(self).at(),
                p0 <= self.at(),
                grammar::use_path(t, p0, Seq::empty()) == grammar::use_path(t, self.at(), path@),
            decreases self.tokens.len() - self.pos,
        {
            let ghost q = self.at();
            match self.advance()? {
                Token::Symbol(s) => push_str(&mut path, clj_to_rust_ident(s.as_str()).as_str()),
                Token::LBrace => {
                    push_char(&mut path, '{');
                    path = self.parse_use_group(path)?;
                    self.expect(&Token::RBrace)?;
                    push_char(&mut path, '}');
                    assert(moved(t, q, self.at()));
                },
                _ => return Err(string_of("Unexpected token in use path")),
            }
        }
        Ok(path)
    }

    /// The names of a `{..}` group up to `}`, appended to `acc`.
    fn parse_use_group(&mut self, acc: String) -> (r: Result<String, String>)
        requires
            old(self).wf(),
        ensures
            final(self).wf(),
            final(self).toks() == old(self).toks(),
            agrees(r, grammar::use_group(old(self).toks(), old(self).at(), acc@, true), final(self).at()),
            r is Ok ==> old(self).at() <= final(self).at(),
    {
        let ghost t = self.toks();
        let ghost p0 = self.at();
        let mut path = string_of(acc.as_str());
        let mut first = true;
        while !self.peek_is(&Token::RBrace)
            invariant
                self.wf(),
                self.toks() == t,
                t == old(self).toks(),
                p0 == old(self).at(),
                p0 <= self.at(),
                grammar::use_group(t, p0, acc@, true) == grammar::use_group(t, self.at(), path@, first),
            decreases self.tokens.len() - self.pos,
        {
            if !first {
                push_str(&mut path, ", ");
            }
            first = false;
            if let Token::Symbol(s) = self.advance()? {
                push_str(&mut path, clj_to_rust_ident(s.as_str()).as_str());
            }
        }
        Ok(path)
    }

    /// `(extern-crate name)`.
    fn parse_extern_crate(&mut self) -> (r: Result<String, String>)
        requires
            old(self).wf(),
        ensures
            final(self).wf(),
            final(self).toks() == old(self).toks(),
            agrees(r, grammar::extern_crate(old(self).toks(), old(self).at()), final(self).at()),
            r is Ok ==> old(self).at() < final(self).at(),
    {
        self.expect(&Token::LParen)?;
        self.expect_symbol("extern-crate")?;
        let name = self.expect_any_symbol()?;
        self.expect(&Token::RParen)?;
        Ok(clj_to_rust_ident(name.as_str()))
    }

    /// `(def name [-> Type] value)`, `def-mut` or `const`.
    fn parse_def(&mut self) -> (r: Result<Def, String>)
        requires
            old(self).wf(),
        ensures
            final(self).wf(),
            final(self).toks() == old(self).toks(),
            agrees_by(r, grammar::def_form(old(self).toks(), old(self).at()), final(self).at(), |d: Def| def_view(&d)),
            r is Ok ==> old(self).at() < final(self).at(),
    {
        self.expect(&Token::LParen)?;
        let form = self.expect_any_symbol()?;
        let is_const = str_eq(form.as_str(), "const");
        let mutable = str_eq(form.as_str(), "def-mut");
        let name = self.expect_any_symbol()?;
        let type_ann = self.parse_ret_type()?;
        let value = self.parse_expr()?;
        self.expect(&Token::RParen)?;
        Ok(Def { is_pub: false, mutable, name: clj_to_rust_ident(name.as_str()), type_ann, value, is_const })
    }

    /// `(defn name [<T ..>] [params] [-> Type] body ..)`.
    fn parse_defn(&mut self) -> (r: Result<Defn, String>)
        requires
            old(self).wf(),
        ensures
            final(self).wf(),
            final(self).toks() == old(self).toks(),
            agrees_by(r, grammar::defn(old(self).toks(), old(self).at()), final(self).at(), |d: Defn| defn_view(&d)),
            r is Ok ==> old(self).at() < final(self).at(),
    {
        self.expect(&Token::LParen)?;
        let form = self.expect_any_symbol()?;
        let is_pub = !str_eq(form.as_str(), "defn-");
        let is_async = str_eq(form.as_str(), "defn-async");
        let name = self.expect_any_symbol()?;
        let generics = if self.peek_symbol_is("<") {
            self.parse_generics()?
        } else {
            Vec::new()
        };
        self.expect(&Token::LBracket)?;
        let params = self.parse_params()?;
        self.expect(&Token::RBracket)?;
        let ret_type = self.parse_ret_type()?;
        let body = self.parse_exprs_closed()?;
        proof {
            assert(generics@.len() == 0 ==> strs_view(generics@) =~= Seq::<Seq<char>>::empty());
        }
        Ok(Defn { is_pub, name: clj_to_rust_ident(name.as_str()), generics, params, ret_type, body, is_async })
    }

    /// `<A B>` generic parameter names.
    fn parse_generics(&mut self) -> (r: Result<Vec<String>, String>)
        requires
            old(self).wf(),
        ensures
            final(self).wf(),
            final(self).toks() == old(self).toks(),
            agrees_by(r, grammar::generics(old(self).toks(), old(self).at()), final(self).at(), |v: Vec<String>| strs_view(v@)),
            r is Ok ==> old(self).at() < final(self).at(),
    {
        self.advance()?;
        let ghost t = self.toks();
        let ghost p1 = self.at();
        let mut generics: Vec<String> = Vec::new();
        assert(strs_view(generics@) =~= Seq::<Seq<char>>::empty());
        loop
            invariant_except_break
                grammar::generic_names(t, p1, Seq::empty()) == grammar::generic_names(t, self.at(), strs_view(generics@)),
            invariant
                self.wf(),
                self.toks() == t,
                t == old(self).toks(),
                p1 == old(self).at() + 1,
                p1 <= self.at(),
            ensures
                self.wf(),
                self.toks() == t,
                p1 < self.at(),
                grammar::generic_names(t, p1, Seq::empty()) == Ok::<(Seq<Seq<char>>, int), Seq<char>>((strs_view(generics@), self.at())),
            decreases self.tokens.len() - self.pos,
        {
            let g = self.expect_any_symbol()?;
            let ghost before = generics@;
            let ghost gv = g@;
            generics.push(g);
            assert(strs_view(generics@) =~= strs_view(before).push(gv));
            if self.peek_symbol_is(">") {
                let _ = self.advance();
                break;
            }
        }
        Ok(generics)
    }

    /// `#[A B]` derives.
    fn parse_derives(&mut self) -> (r: Result<Vec<String>, String>)
        requires
            old(self).wf(),
        ensures
            final(self).wf(),
            final(self).toks() == old(self).toks(),
            agrees_by(r, grammar::derives(old(self).toks(), old(self).at()), final(self).at(), |v: Vec<String>| strs_view(v@)),
            r is Ok ==> old(self).at() < final(self).at(),
    {
        self.advance()?;
        self.expect(&Token::LBracket)?;
        let ghost t = self.toks();
        let ghost p1 = self.at();
        let mut derives: Vec<String> = Vec::new();
        assert(strs_view(derives@) =~= Seq::<Seq<char>>::empty());
        while !self.peek_is(&Token::RBracket)
            invariant
                self.wf(),
                self.toks() == t,
                t == old(self).toks(),
                p1 == old(self).at() + 2,
                p1 <= self.at(),
                at_tok(t, old(self).at() + 1, SpecToken::LBracket),
                grammar::derive_names(t, p1, Seq::empty()) == grammar::derive_names(t, self.at(), strs_view(derives@)),
            decreases self.tokens.len() - self.pos,
        {
            let d = self.expect_any_symbol()?;
            let ghost before = derives@;
            let ghost dv = d@;
            derives.push(d);
            assert(strs_view(derives@) =~= strs_view(before).push(dv));
        }
        self.expect(&Token::RBracket)?;
        Ok(derives)
    }
}

impl Parser {
    /// `(defstruct Name [<T ..>] [#[derives]] [[pub] field : Type ..])`.
    fn parse_defstruct(&mut self) -> (r: Result<DefStruct, String>)
        requires
            old(self).wf(),
        ensures
            final(self).wf(),
            final(self).toks() == old(self).toks(),
            agrees_by(r, grammar::defstruct(old(self).toks(), old(self).at()), final(self).at(), |d: DefStruct| struct_view(&d)),
            r is Ok ==> old(self).at() < final(self).at(),
    {
        self.expect(&Token::LParen)?;
        self.expect_symbol("defstruct")?;
        let name = self.expect_any_symbol()?;
        let generics = if self.peek_symbol_is("<") {
            self.parse_generics()?
        } else {
            Vec::new()
        };
        let derives = if self.peek_is(&Token::Hash) {
            self.parse_derives()?
        } else {
            Vec::new()
        };
        assert(generics@.len() == 0 ==> strs_view(generics@) =~= Seq::<Seq<char>>::empty());
        assert(derives@.len() == 0 ==> strs_view(derives@) =~= Seq::<Seq<char>>::empty());
        self.expect(&Token::LBracket)?;
        let fields = self.parse_struct_fields()?;
        self.expect(&Token::RBracket)?;
        self.expect(&Token::RParen)?;
        Ok(DefStruct { is_pub: true, name: clj_to_rust_ident(name.as_str()), generics, fields, derives })
    }

    /// `[pub] name : Type` fields up to `]`.
    fn parse_struct_fields(&mut self) -> (r: Result<Vec<StructField>, String>)
        requires
            old(self).wf(),
        ensures
            final(self).wf(),
            final(self).toks() == old(self).toks(),
            agrees_by(
                r,
                grammar::struct_fields(old(self).toks(), old(self).at(), Seq::empty()),
                final(self).at(),
                |v: Vec<StructField>| fields_view(v@),
            ),
            r is Ok ==> old(self).at() <= final(self).at(),
    {
        let ghost t = self.toks();
        let ghost p0 = self.at();
        let mut fields: Vec<StructField> = Vec::new();
        assert(fields_view(fields@) =~= Seq::<crate::ast::SpecStructField>::empty());
        while !self.peek_is(&Token::RBracket)
            invariant
                self.wf(),
                self.toks() == t,
                t == old(self).toks(),
                p0 == old(self).at(),
                p0 <= self.at(),
                grammar::struct_fields(t, p0, Seq::empty()) == grammar::struct_fields(t, self.at(), fields_view(fields@)),
            decreases self.tokens.len() - self.pos,
        {
            let is_pub = if self.peek_symbol_is("pub") {
                self.advance()?;
                true
            } else {
                false
            };
            let fname = self.expect_any_symbol()?;
            self.expect_symbol(":")?;
            let ftype = self.parse_type_str()?;
            let f = StructField { is_pub, name: clj_to_rust_ident(fname.as_str()), type_ann: ftype };
            let ghost before = fields@;
            let ghost fv = crate::ast::field_view(f);
            fields.push(f);
            assert(fields_view(fields@) =~= fields_view(before).push(fv));
        }
        Ok(fields)
    }

    /// `(defenum Name [<T ..>] [#[derives]] variant ..)`.
    fn parse_defenum(&mut self) -> (r: Result<DefEnum, String>)
        requires
            old(self).wf(),
        ensures
            final(self).wf(),
            final(self).toks() == old(self).toks(),
            agrees_by(r, grammar::defenum(old(self).toks(), old(self).at()), final(self).at(), |d: DefEnum| enum_view(&d)),
            r is Ok ==> old(self).at() < final(self).at(),
    {
        self.expect(&Token::LParen)?;
        self.expect_symbol("defenum")?;
        let name = self.expect_any_symbol()?;
        let generics = if self.peek_symbol_is("<") {
            self.parse_generics()?
        } else {
            Vec::new()
        };
        let derives = if self.peek_is(&Token::Hash) {
            self.parse_derives()?
        } else {
            Vec::new()
        };
        assert(generics@.len() == 0 ==> strs_view(generics@) =~= Seq::<Seq<char>>::empty());
        assert(derives@.len() == 0 ==> strs_view(derives@) =~= Seq::<Seq<char>>::empty());
        let variants = self.parse_variants()?;
        self.expect(&Token::RParen)?;
        Ok(DefEnum { is_pub: true, name: clj_to_rust_ident(name.as_str()), generics, variants, derives })
    }

    /// Enum variants up to `)`.
    fn parse_variants(&mut self) -> (r: Result<Vec<EnumVariant>, String>)
        requires
            old(self).wf(),
        ensures
            final(self).wf(),
            final(self).toks() == old(self).toks(),
            agrees_by(
                r,
                grammar::variants(old(self).toks(), old(self).at(), Seq::empty()),
                final(self).at(),
                |v: Vec<EnumVariant>| variants_view(v@),
            ),
            r is Ok ==> old(self).at() <= final(self).at(),
    {
        let ghost t = self.toks();
        let ghost p0 = self.at();
        let mut variants: Vec<EnumVariant> = Vec::new();
        assert(variants_view(variants@) =~= Seq::<crate::ast::SpecEnumVariant>::empty());
        while !self.peek_is(&Token::RParen)
            invariant
                self.wf(),
                self.toks() == t,
                t == old(self).toks(),
                p0 == old(self).at(),
                p0 <= self.at(),
                grammar::variants(t, p0, Seq::empty()) == grammar::variants(t, self.at(), variants_view(variants@)),
            decreases self.tokens.len() - self.pos,
        {
            let v = if self.peek_is(&Token::LParen) {
                self.expect(&Token::LParen)?;
                let vname = self.expect_any_symbol()?;
                let tuple_fields = self.parse_types_until(&Token::RParen)?;
                self.expect(&Token::RParen)?;
                EnumVariant {
                    name: clj_to_rust_ident(vname.as_str()),
                    fields: if tuple_fields.len() == 0 {
                        VariantFields::Unit
                    } else {
                        VariantFields::Tuple(tuple_fields)
                    },
                }
            } else {
                let vname = self.expect_any_symbol()?;
                EnumVariant { name: clj_to_rust_ident(vname.as_str()), fields: VariantFields::Unit }
            };
            let ghost before = variants@;
            let ghost vv = crate::ast::variant_view(&v);
            variants.push(v);
            assert(variants_view(variants@) =~= variants_view(before).push(vv));
        }
        Ok(variants)
    }

    /// `(deftrait Name [<T ..>] (defn ..) ..)`.
    fn parse_deftrait(&mut self) -> (r: Result<DefTrait, String>)
        requires
            old(self).wf(),
        ensures
            final(self).wf(),
            final(self).toks() == old(self).toks(),
            agrees_by(r, grammar::deftrait(old(self).toks(), old(self).at()), final(self).at(), |d: DefTrait| trait_view(&d)),
            r is Ok ==> old(self).at() < final(self).at(),
    {
        self.expect(&Token::LParen)?;
        self.expect_symbol("deftrait")?;
        let name = self.expect_any_symbol()?;
        let generics = if self.peek_symbol_is("<") {
            self.parse_generics()?
        } else {
            Vec::new()
        };
        assert(generics@.len() == 0 ==> strs_view(generics@) =~= Seq::<Seq<char>>::empty());
        let methods = self.parse_defns_until()?;
        self.expect(&Token::RParen)?;
        Ok(DefTrait { is_pub: true, name: clj_to_rust_ident(name.as_str()), generics, methods })
    }

    /// Function definitions up to `)`.
    fn parse_defns_until(&mut self) -> (r: Result<Vec<Defn>, String>)
        requires
            old(self).wf(),
        ensures
            final(self).wf(),
            final(self).toks() == old(self).toks(),
            agrees_by(
                r,
                grammar::defns_until(old(self).toks(), old(self).at(), Seq::empty()),
                final(self).at(),
                |v: Vec<Defn>| defns_view(v@),
            ),
            r is Ok ==> old(self).at() <= final(self).at(),
    {
        let ghost t = self.toks();
        let ghost p0 = self.at();
        let mut methods: Vec<Defn> = Vec::new();
        assert(defns_view(methods@) =~= Seq::<crate::ast::SpecDefn>::empty());
        while !self.peek_is(&Token::RParen)
            invariant
                self.wf(),
                self.toks() == t,
                t == old(self).toks(),
                p0 == old(self).at(),
                p0 <= self.at(),
                grammar::defns_until(t, p0, Seq::empty()) == grammar::defns_until(t, self.at(), defns_view(methods@)),
            decreases self.tokens.len() - self.pos,
        {
            let m = self.parse_defn()?;
            let ghost before = methods@;
            let ghost mv = defn_view(&m);
            methods.push(m);
            assert(defns_view(methods@) =~= defns_view(before).push(mv));
        }
        Ok(methods)
    }

    /// `(defimpl Type [<T ..>] (defn ..) ..)`, or with a trait,
    /// `(defimpl Trait [<T ..>] for Type (defn ..) ..)`.
    fn parse_impl(&mut self) -> (r: Result<Impl, String>)
        requires
            old(self).wf(),
        ensures
            final(self).wf(),
            final(self).toks() == old(self).toks(),
            agrees_by(r, grammar::impl_form(old(self).toks(), old(self).at()), final(self).at(), |d: Impl| impl_view(&d)),
            r is Ok ==> old(self).at() < final(self).at(),
    {
        self.expect(&Token::LParen)?;
        self.expect_symbol("defimpl")?;
        let first = self.expect_any_symbol()?;
        let generics = if self.peek_symbol_is("<") {
            self.parse_generics()?
        } else {
            Vec::new()
        };
        assert(generics@.len() == 0 ==> strs_view(generics@) =~= Seq::<Seq<char>>::empty());
        let (trait_name, typ_name) = if self.peek_symbol_is("for") {
            self.advance()?;
            let actual = self.expect_any_symbol()?;
            (Some(clj_to_rust_ident(first.as_str())), clj_to_rust_ident(actual.as_str()))
        } else {
            (None, clj_to_rust_ident(first.as_str()))
        };
        let methods = self.parse_defns_until()?;
        self.expect(&Token::RParen)?;
        Ok(Impl { typ_name, generics, trait_name, methods })
    }

    /// `(defmod name item ..)`.
    fn parse_mod(&mut self) -> (r: Result<Mod, String>)
        requires
            old(self).wf(),
        ensures
            final(self).wf(),
            final(self).toks() == old(self).toks(),
            agrees_by(r, grammar::mod_form(old(self).toks(), old(self).at()), final(self).at(), |m: Mod| mod_view(&m)),
            r is Ok ==> old(self).at() < final(self).at(),
        decreases old(self).toks().len() - old(self).at(), 0int,
    {
        self.expect(&Token::LParen)?;
        self.expect_symbol("defmod")?;
        let name = self.expect_any_symbol()?;
        let ghost t = self.toks();
        let ghost p3 = self.at();
        let mut items: Vec<TopLevel> = Vec::new();
        assert(toplevels_view(items@) =~= Seq::<SpecTopLevel>::empty());
        while !self.peek_is(&Token::RParen)
            invariant
                self.wf(),
                self.toks() == t,
                t == old(self).toks(),
                p3 == old(self).at() + 3,
                p3 <= self.at(),
                grammar::expect(t, old(self).at(), SpecToken::LParen) is Ok,
                grammar::expect_symbol(t, old(self).at() + 1, "defmod"@) is Ok,
                grammar::expect_any_symbol(t, old(self).at() + 2) == Ok::<(Seq<char>, int), Seq<char>>((name@, p3)),
                grammar::top_items(t, p3, Seq::empty()) == grammar::top_items(t, self.at(), toplevels_view(items@)),
            decreases self.tokens.len() - self.pos,
        {
            let item = self.parse_top_level()?;
            let ghost before = items@;
            let ghost iv = item@;
            items.push(item);
            assert(toplevels_view(items@) =~= toplevels_view(before).push(iv));
        }
        self.expect(&Token::RParen)?;
        Ok(Mod { is_pub: true, name: clj_to_rust_ident(name.as_str()), items })
    }

    /// `(#! name [(arg ..)] item)`.
    fn parse_attr(&mut self) -> (r: Result<TopLevel, String>)
        requires
            old(self).wf(),
        ensures
            final(self).wf(),
            final(self).toks() == old(self).toks(),
            agrees(r, grammar::attr(old(self).toks(), old(self).at()), final(self).at()),
            r is Ok ==> old(self).at() < final(self).at(),
        decreases old(self).toks().len() - old(self).at(), 0int,
    {
        self.expect(&Token::LParen)?;
        self.expect_symbol("#!")?;
        let attr_name = self.expect_any_symbol()?;
        let mut attr = string_of(attr_name.as_str());
        if self.peek_is(&Token::LParen) {
            self.advance()?;
            push_char(&mut attr, '(');
            attr = self.parse_attr_args(attr)?;
            self.expect(&Token::RParen)?;
            push_char(&mut attr, ')');
        }
        let inner = self.parse_top_level()?;
        self.expect(&Token::RParen)?;
        Ok(TopLevel::Attr(attr, Box::new(inner)))
    }

    /// Attribute arguments up to `)`, separated by `, `, appended to `acc`.
    fn parse_attr_args(&mut self, acc: String) -> (r: Result<String, String>)
        requires
            old(self).wf(),
        ensures
            final(self).wf(),
            final(self).toks() == old(self).toks(),
            agrees(r, grammar::attr_args(old(self).toks(), old(self).at(), acc@, true), final(self).at()),
            r is Ok ==> old(self).at() <= final(self).at(),
    {
        let ghost t = self.toks();
        let ghost p0 = self.at();
        let mut text = string_of(acc.as_str());
        let mut first = true;
        while !self.peek_is(&Token::RParen)
            invariant
                self.wf(),
                self.toks() == t,
                t == old(self).toks(),
                p0 == old(self).at(),
                p0 <= self.at(),
                grammar::attr_args(t, p0, acc@, true) == grammar::attr_args(t, self.at(), text@, first),
            decreases self.tokens.len() - self.pos,
        {
            if !first {
                push_str(&mut text, ", ");
            }
            first = false;
            let a = self.expect_any_symbol()?;
            push_str(&mut text, a.as_str());
        }
        Ok(text)
    }
}

} // verus!
