//! What the parser makes of a token sequence: for each form of the syntax, a
//! function from the tokens and a position to the parsed value and the
//! position after it, or the error message.
//!
//! Where a form parses a sub-form and continues after it, the continuation is
//! taken only when the sub-form moved forward and stayed within the tokens;
//! every sub-form does (the parser proves it of its results), so the other
//! branch (an empty message) is never taken.
use vstd::prelude::*;
use crate::ast::{
    binop_text, BinOpKind, SpecDef, SpecDefEnum, SpecDefStruct, SpecDefTrait, SpecDefn, SpecEnumVariant, SpecExpr,
    SpecImplBlock, SpecLetBinding, SpecMatchArm, SpecMod, SpecParam, SpecPattern, SpecProgram, SpecStructField,
    SpecTopLevel, SpecVariantFields, UnaryOpKind,
};
use crate::lexer::{SpecSpanned, SpecToken};
use crate::text::{int_text, join, replace_char, spec_debug_char, spec_debug_str, trim_end_char};

verus! {

/// A parse result: the value and the position after it, or a message.
pub type Parsed<A> = Result<(A, int), Seq<char>>;

// ── Tokens ──────────────────────────────────────────────────────────────

/// The token at `pos`, if there is one.
pub open spec fn tok_at(t: Seq<SpecSpanned>, pos: int) -> Option<SpecToken> {
    if 0 <= pos < t.len() {
        Some(t[pos].token)
    } else {
        None
    }
}

/// The token at `pos` is `k`.
pub open spec fn at_tok(t: Seq<SpecSpanned>, pos: int, k: SpecToken) -> bool {
    tok_at(t, pos) == Some(k)
}

/// The token at `pos` is the symbol `s`.
pub open spec fn at_sym(t: Seq<SpecSpanned>, pos: int, s: Seq<char>) -> bool {
    tok_at(t, pos) == Some(SpecToken::Symbol(s))
}

/// The line of the token at `pos`, or 0 past the end.
pub open spec fn line_at(t: Seq<SpecSpanned>, pos: int) -> int {
    if 0 <= pos < t.len() {
        t[pos].line
    } else {
        0
    }
}

/// The symbol that follows the opening parenthesis at `pos`, if any.
pub open spec fn list_head(t: Seq<SpecSpanned>, pos: int) -> Option<Seq<char>> {
    if 0 <= pos + 1 < t.len() {
        match t[pos + 1].token {
            SpecToken::Symbol(s) => Some(s),
            _ => None,
        }
    } else {
        None
    }
}

/// The number of `0`s that `d` begins with.
pub open spec fn leading_zeros(d: Seq<char>) -> nat
    decreases d.len(),
{
    if d.len() > 0 && d[0] == '0' {
        1 + leading_zeros(d.drop_first())
    } else {
        0
    }
}

/// Significant digits and an exponent in scientific notation: the first
/// digit, then `.` and the others if there are others, then `e` and the
/// exponent.
pub open spec fn sci_text(digits: Seq<char>, exp: Seq<char>) -> Seq<char> {
    if digits.len() <= 1 {
        digits + "e"@ + exp
    } else {
        seq![digits[0]] + "."@ + digits.drop_first() + "e"@ + exp
    }
}

/// The decimal text of a magnitude below `1e-4`: `0.` then at least four `0`s.
pub open spec fn tiny_text(a: Seq<char>) -> bool {
    a.len() >= 6 && a[0] == '0' && a[1] == '.' && a[2] == '0' && a[3] == '0' && a[4] == '0' && a[5] == '0'
}

/// How `{:?}` writes a non-negative float, given how `Display` writes it
/// (`a`): in scientific notation from `1e16` up (seventeen or more integer
/// digits) and below `1e-4` (but not zero), else as `Display` does with a
/// `.0` added to a whole number; texts that are not numbers (`inf`, `NaN`)
/// stay as they are.
pub open spec fn float_abs_debug(a: Seq<char>) -> Seq<char> {
    if a.len() == 0 || !('0' <= a[0] <= '9') {
        a
    } else if !a.contains('.') {
        if a.len() >= 17 {
            sci_text(trim_end_char(a, '0'), int_text(a.len() - 1))
        } else {
            a + ".0"@
        }
    } else if tiny_text(a) {
        let f = a.skip(2);
        sci_text(f.skip(leading_zeros(f) as int), "-"@ + int_text(leading_zeros(f) + 1int))
    } else {
        a
    }
}

/// How a float literal's value is written by `{:?}`, given how `Display`
/// writes it.
pub open spec fn float_debug(s: Seq<char>) -> Seq<char> {
    if s.len() > 0 && s[0] == '-' {
        seq!['-'] + float_abs_debug(s.drop_first())
    } else {
        float_abs_debug(s)
    }
}

/// How a token is written by `{:?}`.
pub open spec fn tok_debug(k: SpecToken) -> Seq<char> {
    match k {
        SpecToken::LParen => "LParen"@,
        SpecToken::RParen => "RParen"@,
        SpecToken::LBracket => "LBracket"@,
        SpecToken::RBracket => "RBracket"@,
        SpecToken::LBrace => "LBrace"@,
        SpecToken::RBrace => "RBrace"@,
        SpecToken::Symbol(s) => "Symbol("@ + spec_debug_str(s) + ")"@,
        SpecToken::Str(s) => "String("@ + spec_debug_str(s) + ")"@,
        SpecToken::Integer(n) => "Integer("@ + int_text(n) + ")"@,
        SpecToken::Float(s) => "Float("@ + float_debug(s) + ")"@,
        SpecToken::Char(c) => "Char("@ + spec_debug_char(c) + ")"@,
        SpecToken::Keyword(s) => "Keyword("@ + spec_debug_str(s) + ")"@,
        SpecToken::Bool(b) => if b { "Bool(true)"@ } else { "Bool(false)"@ },
        SpecToken::Nil => "Nil"@,
        SpecToken::Ampersand => "Ampersand"@,
        SpecToken::At => "At"@,
        SpecToken::Hash => "Hash"@,
        SpecToken::Arrow => "Arrow"@,
        SpecToken::FatArrow => "FatArrow"@,
        SpecToken::Dot => "Dot"@,
        SpecToken::DotDot => "DotDot"@,
        SpecToken::DotDotEq => "DotDotEq"@,
        SpecToken::Tilde => "Tilde"@,
        SpecToken::Quote => "Quote"@,
    }
}

/// How an optional token is written by `{:?}`.
pub open spec fn opt_tok_debug(o: Option<SpecToken>) -> Seq<char> {
    match o {
        Some(k) => "Some("@ + tok_debug(k) + ")"@,
        None => "None"@,
    }
}

/// A Clojure-style name as a Rust name: every `-` becomes `_`.
pub open spec fn ident(s: Seq<char>) -> Seq<char> {
    replace_char(s, '-', '_')
}

/// Kebab-case becomes snake-case: every `-` becomes `_`, nothing else
/// changes (so `::` path separators, `!` and `?` stay), no `-` is left, and
/// converting again changes nothing.
pub proof fn lemma_ident_snake_case(s: Seq<char>)
    ensures
        ident(s).len() == s.len(),
        forall|i: int| 0 <= i < s.len() && s[i] != '-' ==> ident(s)[i] == s[i],
        forall|i: int| 0 <= i < s.len() && s[i] == '-' ==> ident(s)[i] == '_',
        !ident(s).contains('-'),
        ident(ident(s)) == ident(s),
{
    assert(ident(ident(s)) =~= ident(s));
}

/// The position `p` is past `pos` and within the tokens.
pub open spec fn moved(t: Seq<SpecSpanned>, pos: int, p: int) -> bool {
    pos < p <= t.len()
}

// ── Single tokens ───────────────────────────────────────────────────────

/// The token at `pos`, which is consumed.
pub open spec fn advance(t: Seq<SpecSpanned>, pos: int) -> Parsed<SpecToken> {
    if 0 <= pos < t.len() {
        Ok((t[pos].token, pos + 1))
    } else {
        Err("Unexpected end of input"@)
    }
}

/// The token `k`, which is consumed.
pub open spec fn expect(t: Seq<SpecSpanned>, pos: int, k: SpecToken) -> Parsed<()> {
    match advance(t, pos) {
        Err(m) => Err(m),
        Ok((tok, p)) => if tok == k {
            Ok(((), p))
        } else {
            Err("Expected "@ + tok_debug(k) + ", got "@ + tok_debug(tok))
        },
    }
}

/// The symbol `name`, which is consumed.
pub open spec fn expect_symbol(t: Seq<SpecSpanned>, pos: int, name: Seq<char>) -> Parsed<()> {
    match advance(t, pos) {
        Err(m) => Err(m),
        Ok((tok, p)) => if tok == SpecToken::Symbol(name) {
            Ok(((), p))
        } else {
            Err("Expected symbol '"@ + name + "', got "@ + tok_debug(tok))
        },
    }
}

/// Any symbol, which is consumed.
pub open spec fn expect_any_symbol(t: Seq<SpecSpanned>, pos: int) -> Parsed<Seq<char>> {
    match advance(t, pos) {
        Err(m) => Err(m),
        Ok((SpecToken::Symbol(s), p)) => Ok((s, p)),
        Ok((tok, _)) => Err("Expected symbol, got "@ + tok_debug(tok)),
    }
}

// ── Types ───────────────────────────────────────────────────────────────

/// A type, written as Rust text: `&`/`&mut` prefixes, names with `<..>`
/// arguments, `[T]` for `Vec<T>`, `[T N]` for arrays, `(Fn [..] -> R)` for
/// function pointers and `(A B)` for tuples.
pub open spec fn type_str(t: Seq<SpecSpanned>, pos: int) -> Parsed<Seq<char>>
    decreases t.len() - pos, 1int,
{
    let (prefix, p0) = if at_tok(t, pos, SpecToken::Ampersand) {
        if at_sym(t, pos + 1, "mut"@) {
            ("&mut "@, pos + 2)
        } else {
            ("&"@, pos + 1)
        }
    } else {
        (Seq::<char>::empty(), pos)
    };
    match tok_at(t, p0) {
        Some(SpecToken::Symbol(s)) => {
            let base = prefix + ident(s);
            if at_sym(t, p0 + 1, "<"@) {
                type_args(t, p0 + 2, base + "<"@, true)
            } else {
                Ok((base, p0 + 1))
            }
        },
        Some(SpecToken::LBracket) => bracket_type(t, p0, prefix),
        Some(SpecToken::LParen) => paren_type(t, p0, prefix),
        other => Err("Expected type, got "@ + opt_tok_debug(other)),
    }
}

/// `[T]` (a `Vec<T>`) or `[T N]` (an array), after `prefix`.
pub open spec fn bracket_type(t: Seq<SpecSpanned>, pos: int, prefix: Seq<char>) -> Parsed<Seq<char>>
    decreases t.len() - pos, 0int,
{
    match advance(t, pos) {
        Err(m) => Err(m),
        Ok((_, p0)) => match type_str(t, p0) {
            Err(m) => Err(m),
            Ok((inner, p1)) => if !moved(t, p0, p1) {
                Err(Seq::empty())
            } else if at_tok(t, p1, SpecToken::RBracket) {
                Ok((prefix + "Vec<"@ + inner + ">"@, p1 + 1))
            } else {
                match expect_any_symbol(t, p1) {
                    Err(m) => Err(m),
                    Ok((size, p2)) => match expect(t, p2, SpecToken::RBracket) {
                        Err(m) => Err(m),
                        Ok((_, p3)) => Ok((prefix + "["@ + inner + "; "@ + size + "]"@, p3)),
                    },
                }
            },
        },
    }
}

/// `(Fn [A ..] -> R)` (a function pointer) or `(A ..)` (a tuple), after
/// `prefix`.
pub open spec fn paren_type(t: Seq<SpecSpanned>, pos: int, prefix: Seq<char>) -> Parsed<Seq<char>>
    decreases t.len() - pos, 0int,
{
    match advance(t, pos) {
        Err(m) => Err(m),
        Ok((_, p0)) => if at_sym(t, p0, "Fn"@) || at_sym(t, p0, "fn"@) {
            match expect(t, p0 + 1, SpecToken::LBracket) {
                Err(m) => Err(m),
                Ok((_, p1)) => match types_until(t, p1, SpecToken::RBracket, Seq::empty()) {
                    Err(m) => Err(m),
                    Ok((params, p2)) => match expect(t, p2, SpecToken::RBracket) {
                        Err(m) => Err(m),
                        Ok((_, p3)) => {
                            let ret: Parsed<Seq<char>> = if at_tok(t, p3, SpecToken::Arrow) {
                                if moved(t, pos, p3 + 1) {
                                    type_str(t, p3 + 1)
                                } else {
                                    Err(Seq::empty())
                                }
                            } else {
                                Ok(("()"@, p3))
                            };
                            match ret {
                                Err(m) => Err(m),
                                Ok((r, p4)) => match expect(t, p4, SpecToken::RParen) {
                                    Err(m) => Err(m),
                                    Ok((_, p5)) => Ok(
                                        (prefix + "fn("@ + join(params, ", "@) + ") -> "@ + r, p5),
                                    ),
                                },
                            }
                        },
                    },
                },
            }
        } else {
            match types_until(t, p0, SpecToken::RParen, Seq::empty()) {
                Err(m) => Err(m),
                Ok((types, p1)) => match expect(t, p1, SpecToken::RParen) {
                    Err(m) => Err(m),
                    Ok((_, p2)) => Ok((prefix + "("@ + join(types, ", "@) + ")"@, p2)),
                },
            }
        },
    }
}

/// The arguments of a generic type after its `<`, up to and with `>`,
/// appended to `acc`.
pub open spec fn type_args(t: Seq<SpecSpanned>, pos: int, acc: Seq<char>, first: bool) -> Parsed<Seq<char>>
    decreases t.len() - pos, 2int,
{
    let acc1 = if first { acc } else { acc + ", "@ };
    match type_str(t, pos) {
        Err(m) => Err(m),
        Ok((ty, p)) => if !moved(t, pos, p) {
            Err(Seq::empty())
        } else if at_sym(t, p, ">"@) {
            Ok((acc1 + ty + ">"@, p + 1))
        } else {
            type_args(t, p, acc1 + ty, false)
        },
    }
}

/// Types up to (not including) `close`, appended to `acc`.
pub open spec fn types_until(t: Seq<SpecSpanned>, pos: int, close: SpecToken, acc: Seq<Seq<char>>) -> Parsed<
    Seq<Seq<char>>,
>
    decreases t.len() - pos, 2int,
{
    if at_tok(t, pos, close) {
        Ok((acc, pos))
    } else {
        match type_str(t, pos) {
            Err(m) => Err(m),
            Ok((ty, p)) => if !moved(t, pos, p) {
                Err(Seq::empty())
            } else {
                types_until(t, p, close, acc.push(ty))
            },
        }
    }
}

// ── Expressions ─────────────────────────────────────────────────────────

/// An expression.
pub open spec fn expr(t: Seq<SpecSpanned>, pos: int) -> Parsed<SpecExpr>
    decreases t.len() - pos, 1int,
{
    match tok_at(t, pos) {
        Some(SpecToken::Integer(n)) => Ok((SpecExpr::Integer(n), pos + 1)),
        Some(SpecToken::Float(f)) => Ok((SpecExpr::Float(f), pos + 1)),
        Some(SpecToken::Str(s)) => Ok((SpecExpr::Str(s), pos + 1)),
        Some(SpecToken::Char(c)) => Ok((SpecExpr::Char(c), pos + 1)),
        Some(SpecToken::Bool(b)) => Ok((SpecExpr::Bool(b), pos + 1)),
        Some(SpecToken::Nil) => Ok((SpecExpr::Nil, pos + 1)),
        Some(SpecToken::Keyword(k)) => Ok((SpecExpr::Keyword(k), pos + 1)),
        Some(SpecToken::Symbol(s)) => Ok((SpecExpr::Symbol(ident(s)), pos + 1)),
        Some(SpecToken::Ampersand) => if at_sym(t, pos + 1, "mut"@) {
            match expr(t, pos + 2) {
                Err(m) => Err(m),
                Ok((e, p)) => Ok((SpecExpr::RefMut(Box::new(e)), p)),
            }
        } else {
            match expr(t, pos + 1) {
                Err(m) => Err(m),
                Ok((e, p)) => Ok((SpecExpr::Ref(Box::new(e)), p)),
            }
        },
        Some(SpecToken::At) => match expr(t, pos + 1) {
            Err(m) => Err(m),
            Ok((e, p)) => Ok((SpecExpr::Deref(Box::new(e)), p)),
        },
        Some(SpecToken::LBracket) => vec_literal(t, pos),
        Some(SpecToken::LBrace) => hashmap_literal(t, pos),
        Some(SpecToken::Tilde) => match advance(t, pos + 1) {
            Err(m) => Err(m),
            Ok((SpecToken::Str(s), p)) => Ok((SpecExpr::RawRust(s), p)),
            Ok(_) => Err("Expected string after ~ for raw Rust code"@),
        },
        Some(SpecToken::LParen) => list_expr(t, pos),
        other => Err("Unexpected token "@ + opt_tok_debug(other) + " at line "@ + int_text(line_at(t, pos))),
    }
}

/// Expressions up to (not including) `close`, appended to `acc`.
pub open spec fn exprs_until(t: Seq<SpecSpanned>, pos: int, close: SpecToken, acc: Seq<SpecExpr>) -> Parsed<
    Seq<SpecExpr>,
>
    decreases t.len() - pos, 2int,
{
    if at_tok(t, pos, close) {
        Ok((acc, pos))
    } else {
        match expr(t, pos) {
            Err(m) => Err(m),
            Ok((e, p)) => if !moved(t, pos, p) {
                Err(Seq::empty())
            } else {
                exprs_until(t, p, close, acc.push(e))
            },
        }
    }
}

/// Expressions up to `)`, then the `)`.
pub open spec fn exprs_closed(t: Seq<SpecSpanned>, pos: int) -> Parsed<Seq<SpecExpr>>
    decreases t.len() - pos, 3int,
{
    match exprs_until(t, pos, SpecToken::RParen, Seq::empty()) {
        Err(m) => Err(m),
        Ok((es, p)) => match expect(t, p, SpecToken::RParen) {
            Err(m) => Err(m),
            Ok((_, q)) => Ok((es, q)),
        },
    }
}

/// `[a b c]`.
pub open spec fn vec_literal(t: Seq<SpecSpanned>, pos: int) -> Parsed<SpecExpr>
    decreases t.len() - pos, 0int,
{
    match expect(t, pos, SpecToken::LBracket) {
        Err(m) => Err(m),
        Ok((_, p1)) => match exprs_until(t, p1, SpecToken::RBracket, Seq::empty()) {
            Err(m) => Err(m),
            Ok((es, p2)) => match expect(t, p2, SpecToken::RBracket) {
                Err(m) => Err(m),
                Ok((_, p3)) => Ok((SpecExpr::Vec(es), p3)),
            },
        },
    }
}

/// `{k1 v1 k2 v2}`.
pub open spec fn hashmap_literal(t: Seq<SpecSpanned>, pos: int) -> Parsed<SpecExpr>
    decreases t.len() - pos, 0int,
{
    match expect(t, pos, SpecToken::LBrace) {
        Err(m) => Err(m),
        Ok((_, p1)) => match pairs_until(t, p1, Seq::empty()) {
            Err(m) => Err(m),
            Ok((ps, p2)) => match expect(t, p2, SpecToken::RBrace) {
                Err(m) => Err(m),
                Ok((_, p3)) => Ok((SpecExpr::HashMap(ps), p3)),
            },
        },
    }
}

/// Key-value pairs up to `}`, appended to `acc`.
pub open spec fn pairs_until(t: Seq<SpecSpanned>, pos: int, acc: Seq<(SpecExpr, SpecExpr)>) -> Parsed<
    Seq<(SpecExpr, SpecExpr)>,
>
    decreases t.len() - pos, 2int,
{
    if at_tok(t, pos, SpecToken::RBrace) {
        Ok((acc, pos))
    } else {
        match expr(t, pos) {
            Err(m) => Err(m),
            Ok((k, p1)) => if !moved(t, pos, p1) {
                Err(Seq::empty())
            } else {
                match expr(t, p1) {
                    Err(m) => Err(m),
                    Ok((v, p2)) => if !moved(t, p1, p2) {
                        Err(Seq::empty())
                    } else {
                        pairs_until(t, p2, acc.push((k, v)))
                    },
                }
            },
        }
    }
}

/// The operator that a symbol names, if it names one.
pub open spec fn binop_kind(s: Seq<char>) -> Option<BinOpKind> {
    if s == "+"@ {
        Some(BinOpKind::Add)
    } else if s == "-"@ {
        Some(BinOpKind::Sub)
    } else if s == "*"@ {
        Some(BinOpKind::Mul)
    } else if s == "/"@ {
        Some(BinOpKind::Div)
    } else if s == "%"@ {
        Some(BinOpKind::Rem)
    } else if s == "="@ {
        Some(BinOpKind::Eq)
    } else if s == "!="@ {
        Some(BinOpKind::NotEq)
    } else if s == "<"@ {
        Some(BinOpKind::Lt)
    } else if s == ">"@ {
        Some(BinOpKind::Gt)
    } else if s == "<="@ {
        Some(BinOpKind::LtEq)
    } else if s == ">="@ {
        Some(BinOpKind::GtEq)
    } else if s == "and"@ {
        Some(BinOpKind::And)
    } else if s == "or"@ {
        Some(BinOpKind::Or)
    } else if s == "bit-and"@ {
        Some(BinOpKind::BitAnd)
    } else if s == "bit-or"@ {
        Some(BinOpKind::BitOr)
    } else if s == "bit-xor"@ {
        Some(BinOpKind::BitXor)
    } else if s == "shl"@ {
        Some(BinOpKind::Shl)
    } else if s == "shr"@ {
        Some(BinOpKind::Shr)
    } else {
        None
    }
}

/// How Rust spells the operator that the symbol `s` names: the word
/// operators and `=` are renamed, every other operator is spelt as written.
pub open spec fn rust_spelling(s: Seq<char>) -> Seq<char> {
    if s == "="@ {
        "=="@
    } else if s == "and"@ {
        "&&"@
    } else if s == "or"@ {
        "||"@
    } else if s == "bit-and"@ {
        "&"@
    } else if s == "bit-or"@ {
        "|"@
    } else if s == "bit-xor"@ {
        "^"@
    } else if s == "shl"@ {
        "<<"@
    } else if s == "shr"@ {
        ">>"@
    } else {
        s
    }
}

/// An operator symbol at the head of a list becomes the operator that Rust
/// spells the same way (up to the renamed word operators and `=`), and
/// every such operator can be written: `<` is less-than, `>` greater-than,
/// and so on.
pub proof fn lemma_binop_spelling(s: Seq<char>)
    ensures
        binop_kind(s) matches Some(op) ==> binop_text(op) == rust_spelling(s),
        binop_kind("+"@) == Some(BinOpKind::Add) && binop_kind("-"@) == Some(BinOpKind::Sub)
            && binop_kind("*"@) == Some(BinOpKind::Mul) && binop_kind("/"@) == Some(BinOpKind::Div)
            && binop_kind("%"@) == Some(BinOpKind::Rem) && binop_kind("!="@) == Some(BinOpKind::NotEq)
            && binop_kind("<"@) == Some(BinOpKind::Lt) && binop_kind(">"@) == Some(BinOpKind::Gt)
            && binop_kind("<="@) == Some(BinOpKind::LtEq) && binop_kind(">="@) == Some(BinOpKind::GtEq)
            && binop_kind("="@) == Some(BinOpKind::Eq) && binop_kind("and"@) == Some(BinOpKind::And)
            && binop_kind("or"@) == Some(BinOpKind::Or) && binop_kind("bit-and"@) == Some(BinOpKind::BitAnd)
            && binop_kind("bit-or"@) == Some(BinOpKind::BitOr) && binop_kind("bit-xor"@) == Some(BinOpKind::BitXor)
            && binop_kind("shl"@) == Some(BinOpKind::Shl) && binop_kind("shr"@) == Some(BinOpKind::Shr),
{
    reveal_strlit("+");
    reveal_strlit("-");
    reveal_strlit("*");
    reveal_strlit("/");
    reveal_strlit("%");
    reveal_strlit("=");
    reveal_strlit("!=");
    reveal_strlit("<");
    reveal_strlit(">");
    reveal_strlit("<=");
    reveal_strlit(">=");
    reveal_strlit("and");
    reveal_strlit("or");
    reveal_strlit("bit-and");
    reveal_strlit("bit-or");
    reveal_strlit("bit-xor");
    reveal_strlit("shl");
    reveal_strlit("shr");
    reveal_strlit("==");
    reveal_strlit("&&");
    reveal_strlit("||");
    reveal_strlit("&");
    reveal_strlit("|");
    reveal_strlit("^");
    reveal_strlit("<<");
    reveal_strlit(">>");
    // Symbols of one length differ in their first character, but for
    // `shl`/`shr` (third) and `bit-and`/`bit-xor` (fifth).
    assert("+"@[0] == '+' && "-"@[0] == '-' && "*"@[0] == '*' && "/"@[0] == '/' && "%"@[0] == '%'
        && "="@[0] == '=' && "<"@[0] == '<' && ">"@[0] == '>');
    assert("!="@[0] == '!' && "<="@[0] == '<' && ">="@[0] == '>' && "or"@[0] == 'o');
    assert("and"@[0] == 'a' && "shl"@[0] == 's' && "shr"@[0] == 's' && "shl"@[2] == 'l' && "shr"@[2] == 'r');
    assert("bit-and"@[4] == 'a' && "bit-xor"@[4] == 'x' && "bit-or"@[0] == 'b');
    assert("=="@[0] == '=' && "&&"@[0] == '&' && "||"@[0] == '|' && "<<"@[0] == '<' && ">>"@[0] == '>');
    assert("&"@[0] == '&' && "|"@[0] == '|' && "^"@[0] == '^');
    assert("+"@.len() == 1 && "-"@.len() == 1 && "*"@.len() == 1 && "/"@.len() == 1 && "%"@.len() == 1
        && "="@.len() == 1 && "<"@.len() == 1 && ">"@.len() == 1 && "!="@.len() == 2 && "<="@.len() == 2
        && ">="@.len() == 2 && "or"@.len() == 2 && "and"@.len() == 3 && "shl"@.len() == 3 && "shr"@.len() == 3
        && "bit-or"@.len() == 6 && "bit-and"@.len() == 7 && "bit-xor"@.len() == 7);
}

/// The index of the last `::` in `s` at or before `i`, or -1.
pub open spec fn last_sep(s: Seq<char>, i: int) -> int
    decreases i + 1,
{
    if i < 0 || i + 1 >= s.len() {
        -1
    } else if s[i] == ':' && s[i + 1] == ':' {
        i
    } else {
        last_sep(s, i - 1)
    }
}

/// What `last_sep` finds is a `::` within `s`.
pub proof fn lemma_last_sep(s: Seq<char>, i: int)
    ensures
        last_sep(s, i) == -1 || (0 <= last_sep(s, i) <= i && last_sep(s, i) + 1 < s.len()),
    decreases i + 1,
{
    if !(i < 0 || i + 1 >= s.len()) && !(s[i] == ':' && s[i + 1] == ':') {
        lemma_last_sep(s, i - 1);
    }
}

/// `s` holds `::`.
pub open spec fn has_path_sep(s: Seq<char>) -> bool {
    last_sep(s, s.len() - 2) >= 0
}

/// A parenthesised form, after `(`: the head symbol selects a special form,
/// an operator, a method, macro or static call; `..` and `..=` make ranges,
/// and anything else is a call.
pub open spec fn list_expr(t: Seq<SpecSpanned>, pos: int) -> Parsed<SpecExpr>
    decreases t.len() - pos, 0int,
{
    match expect(t, pos, SpecToken::LParen) {
        Err(m) => Err(m),
        Ok((_, p)) => if at_tok(t, p, SpecToken::RParen) {
            Ok((SpecExpr::Tuple(Seq::empty()), p + 1))
        } else {
            match tok_at(t, p) {
                Some(SpecToken::Symbol(s)) => form(t, p, s),
                Some(SpecToken::DotDot) => pair_form(t, p, 2),
                Some(SpecToken::DotDotEq) => pair_form(t, p, 3),
                _ => call(t, p),
            }
        },
    }
}

/// The form whose head symbol `s` stands at `pos`.
pub open spec fn form(t: Seq<SpecSpanned>, pos: int, s: Seq<char>) -> Parsed<SpecExpr>
    decreases t.len() - pos, 4int,
{
    if s == "let"@ || s == "let-mut"@ {
        let_form(t, pos, s == "let-mut"@)
    } else if s == "if"@ {
        if_form(t, pos)
    } else if s == "do"@ {
        seq_form(t, pos, 0)
    } else if s == "fn"@ {
        fn_form(t, pos)
    } else if s == "match"@ {
        match_form(t, pos)
    } else if s == "for"@ {
        for_form(t, pos)
    } else if s == "while"@ {
        while_form(t, pos)
    } else if s == "loop"@ {
        loop_form(t, pos)
    } else if s == "recur"@ {
        seq_form(t, pos, 1)
    } else if s == "set!"@ {
        pair_form(t, pos, 0)
    } else if s == "return"@ {
        opt_value_form(t, pos, true)
    } else if s == "break"@ {
        opt_value_form(t, pos, false)
    } else if s == "continue"@ {
        continue_form(t, pos)
    } else if s == "as"@ {
        as_form(t, pos)
    } else if s == "try!"@ || s == "?"@ {
        single_form(t, pos, true)
    } else if s == "await"@ {
        single_form(t, pos, false)
    } else if s == "new"@ {
        struct_init(t, pos)
    } else if s == "get"@ {
        pair_form(t, pos, 1)
    } else if s == "tuple"@ {
        seq_form(t, pos, 2)
    } else if binop_kind(s) is Some {
        binop_form(t, pos, s)
    } else if s == "not"@ || s == "neg"@ {
        unary_form(t, pos, s == "not"@)
    } else if s == ".."@ {
        pair_form(t, pos, 2)
    } else if s == "..="@ {
        pair_form(t, pos, 3)
    } else if s.len() > 1 && s[0] == '.' {
        method_call(t, pos, s)
    } else if s.len() > 0 && s.last() == '!' {
        macro_call(t, pos, s)
    } else if has_path_sep(s) {
        static_call(t, pos, s)
    } else {
        call(t, pos)
    }
}

/// Expressions then `)`: `do` (0), `recur` (1) and `tuple` (2).
pub open spec fn seq_form(t: Seq<SpecSpanned>, pos: int, kind: int) -> Parsed<SpecExpr>
    decreases t.len() - pos, 0int,
{
    match advance(t, pos) {
        Err(m) => Err(m),
        Ok((_, p0)) => match exprs_closed(t, p0) {
            Err(m) => Err(m),
            Ok((es, p)) => Ok(
                (
                    if kind == 0 {
                        SpecExpr::Do(es)
                    } else if kind == 1 {
                        SpecExpr::Recur(es)
                    } else {
                        SpecExpr::Tuple(es)
                    },
                    p,
                ),
            ),
        },
    }
}

/// `(continue)`.
pub open spec fn continue_form(t: Seq<SpecSpanned>, pos: int) -> Parsed<SpecExpr> {
    match advance(t, pos) {
        Err(m) => Err(m),
        Ok((_, p0)) => match expect(t, p0, SpecToken::RParen) {
            Err(m) => Err(m),
            Ok((_, p)) => Ok((SpecExpr::Continue, p)),
        },
    }
}

/// `(not x)` (when `is_not`) or `(neg x)`.
pub open spec fn unary_form(t: Seq<SpecSpanned>, pos: int, is_not: bool) -> Parsed<SpecExpr>
    decreases t.len() - pos, 0int,
{
    match advance(t, pos) {
        Err(m) => Err(m),
        Ok((_, p0)) => match expr(t, p0) {
            Err(m) => Err(m),
            Ok((e, p1)) => match expect(t, p1, SpecToken::RParen) {
                Err(m) => Err(m),
                Ok((_, p2)) => Ok(
                    (
                        SpecExpr::UnaryOp {
                            op: if is_not { UnaryOpKind::Not } else { UnaryOpKind::Neg },
                            operand: Box::new(e),
                        },
                        p2,
                    ),
                ),
            },
        },
    }
}

/// `(.method object arg ..)`, the head being `s`.
pub open spec fn method_call(t: Seq<SpecSpanned>, pos: int, s: Seq<char>) -> Parsed<SpecExpr>
    decreases t.len() - pos, 0int,
{
    match advance(t, pos) {
        Err(m) => Err(m),
        Ok((_, p0)) => match expr(t, p0) {
            Err(m) => Err(m),
            Ok((obj, p1)) => if !moved(t, p0, p1) {
                Err(Seq::empty())
            } else {
                match exprs_closed(t, p1) {
                    Err(m) => Err(m),
                    Ok((args, p2)) => Ok(
                        (
                            SpecExpr::MethodCall {
                                object: Box::new(obj),
                                method: ident(s.subrange(1, s.len() as int)),
                                args,
                            },
                            p2,
                        ),
                    ),
                }
            },
        },
    }
}

/// `(name! arg ..)`, the head being `s`.
pub open spec fn macro_call(t: Seq<SpecSpanned>, pos: int, s: Seq<char>) -> Parsed<SpecExpr>
    decreases t.len() - pos, 0int,
{
    match advance(t, pos) {
        Err(m) => Err(m),
        Ok((_, p0)) => match exprs_closed(t, p0) {
            Err(m) => Err(m),
            Ok((args, p)) => Ok((SpecExpr::MacroCall { name: ident(s), args }, p)),
        },
    }
}

/// `(Type::method arg ..)`, the head being `s`: the type is what comes
/// before the last `::`, the method what comes after it.
pub open spec fn static_call(t: Seq<SpecSpanned>, pos: int, s: Seq<char>) -> Parsed<SpecExpr>
    decreases t.len() - pos, 0int,
{
    let k = last_sep(s, s.len() - 2);
    match advance(t, pos) {
        Err(m) => Err(m),
        Ok((_, p0)) => match exprs_closed(t, p0) {
            Err(m) => Err(m),
            Ok((args, p)) => Ok(
                (
                    SpecExpr::StaticCall {
                        typ_name: ident(s.subrange(0, k)),
                        method: ident(s.subrange(k + 2, s.len() as int)),
                        args,
                    },
                    p,
                ),
            ),
        },
    }
}

/// A call: the callee expression, then the arguments, then `)`.
pub open spec fn call(t: Seq<SpecSpanned>, pos: int) -> Parsed<SpecExpr>
    decreases t.len() - pos, 3int,
{
    match expr(t, pos) {
        Err(m) => Err(m),
        Ok((f, p1)) => if !moved(t, pos, p1) {
            Err(Seq::empty())
        } else {
            match exprs_closed(t, p1) {
                Err(m) => Err(m),
                Ok((args, p2)) => Ok((SpecExpr::Call { func: Box::new(f), args }, p2)),
            }
        },
    }
}

/// `(+ a b c ..)`: the operands folded from the left; a single `-` operand
/// is negated and any other single operand stands alone.
pub open spec fn binop_form(t: Seq<SpecSpanned>, pos: int, s: Seq<char>) -> Parsed<SpecExpr>
    decreases t.len() - pos, 0int,
{
    match advance(t, pos) {
        Err(m) => Err(m),
        Ok((_, p0)) => {
            match binop_kind(s) {
                None => Err("Unknown operator: "@ + s),
                Some(op) => match exprs_closed(t, p0) {
                    Err(m) => Err(m),
                    Ok((operands, p)) => if operands.len() == 0 {
                        Err("Operator "@ + s + " requires at least one operand"@)
                    } else if operands.len() == 1 && op == BinOpKind::Sub {
                        Ok((SpecExpr::UnaryOp { op: UnaryOpKind::Neg, operand: Box::new(operands[0]) }, p))
                    } else {
                        Ok((fold_binop(op, operands), p))
                    },
                },
            }
        },
    }
}

/// `a op b op c ..` grouped from the left: `((a op b) op c) ..`.
pub open spec fn fold_binop(op: BinOpKind, es: Seq<SpecExpr>) -> SpecExpr
    decreases es.len(),
{
    if es.len() <= 1 {
        es[0]
    } else {
        SpecExpr::BinOp { op, left: Box::new(fold_binop(op, es.drop_last())), right: Box::new(es.last()) }
    }
}

/// Two expressions then `)`: `set!` (0), `get` (1), `..` (2) and `..=` (3).
pub open spec fn pair_form(t: Seq<SpecSpanned>, pos: int, kind: int) -> Parsed<SpecExpr>
    decreases t.len() - pos, 0int,
{
    match advance(t, pos) {
        Err(m) => Err(m),
        Ok((_, p0)) => {
            match expr(t, p0) {
                Err(m) => Err(m),
                Ok((a, p1)) => if !moved(t, p0, p1) {
                    Err(Seq::empty())
                } else {
                    match expr(t, p1) {
                        Err(m) => Err(m),
                        Ok((b, p2)) => match expect(t, p2, SpecToken::RParen) {
                            Err(m) => Err(m),
                            Ok((_, p3)) => Ok(
                                (
                                    if kind == 0 {
                                        SpecExpr::Assign { target: Box::new(a), value: Box::new(b) }
                                    } else if kind == 1 {
                                        SpecExpr::Index { object: Box::new(a), index: Box::new(b) }
                                    } else {
                                        SpecExpr::Range { start: Box::new(a), end: Box::new(b), inclusive: kind == 3 }
                                    },
                                    p3,
                                ),
                            ),
                        },
                    }
                },
            }
        },
    }
}

/// One expression then `)`: `?`/`try!` (when `is_try`) or `await`.
pub open spec fn single_form(t: Seq<SpecSpanned>, pos: int, is_try: bool) -> Parsed<SpecExpr>
    decreases t.len() - pos, 0int,
{
    match advance(t, pos) {
        Err(m) => Err(m),
        Ok((_, p0)) => {
            match expr(t, p0) {
                Err(m) => Err(m),
                Ok((e, p1)) => match expect(t, p1, SpecToken::RParen) {
                    Err(m) => Err(m),
                    Ok((_, p2)) => Ok(
                        (if is_try { SpecExpr::Try(Box::new(e)) } else { SpecExpr::Await(Box::new(e)) }, p2),
                    ),
                },
            }
        },
    }
}

/// `return` or `break` (when not `is_return`), with an optional value.
pub open spec fn opt_value_form(t: Seq<SpecSpanned>, pos: int, is_return: bool) -> Parsed<SpecExpr>
    decreases t.len() - pos, 0int,
{
    match advance(t, pos) {
        Err(m) => Err(m),
        Ok((_, p0)) => {
            let v: Parsed<Option<Box<SpecExpr>>> = if !at_tok(t, p0, SpecToken::RParen) {
                match expr(t, p0) {
                    Err(m) => Err(m),
                    Ok((e, p)) => Ok((Some(Box::new(e)), p)),
                }
            } else {
                Ok((None, p0))
            };
            match v {
                Err(m) => Err(m),
                Ok((val, p1)) => match expect(t, p1, SpecToken::RParen) {
                    Err(m) => Err(m),
                    Ok((_, p2)) => Ok((if is_return { SpecExpr::Return(val) } else { SpecExpr::Break(val) }, p2)),
                },
            }
        },
    }
}

/// `(as expr Type)`.
pub open spec fn as_form(t: Seq<SpecSpanned>, pos: int) -> Parsed<SpecExpr>
    decreases t.len() - pos, 0int,
{
    match advance(t, pos) {
        Err(m) => Err(m),
        Ok((_, p0)) => {
            match expr(t, p0) {
                Err(m) => Err(m),
                Ok((e, p1)) => match type_str(t, p1) {
                    Err(m) => Err(m),
                    Ok((ty, p2)) => match expect(t, p2, SpecToken::RParen) {
                        Err(m) => Err(m),
                        Ok((_, p3)) => Ok((SpecExpr::As { expr: Box::new(e), typ_name: ty }, p3)),
                    },
                },
            }
        },
    }
}

/// `(new Name :field value ..)`.
pub open spec fn struct_init(t: Seq<SpecSpanned>, pos: int) -> Parsed<SpecExpr>
    decreases t.len() - pos, 0int,
{
    match advance(t, pos) {
        Err(m) => Err(m),
        Ok((_, p0)) => {
            match expect_any_symbol(t, p0) {
                Err(m) => Err(m),
                Ok((name, p1)) => match init_fields(t, p1, Seq::empty()) {
                    Err(m) => Err(m),
                    Ok((fields, p2)) => match expect(t, p2, SpecToken::RParen) {
                        Err(m) => Err(m),
                        Ok((_, p3)) => Ok((SpecExpr::StructInit { name: ident(name), fields }, p3)),
                    },
                },
            }
        },
    }
}

/// `:field value` pairs up to `)`, appended to `acc`.
pub open spec fn init_fields(t: Seq<SpecSpanned>, pos: int, acc: Seq<(Seq<char>, SpecExpr)>) -> Parsed<
    Seq<(Seq<char>, SpecExpr)>,
>
    decreases t.len() - pos, 2int,
{
    if at_tok(t, pos, SpecToken::RParen) {
        Ok((acc, pos))
    } else {
        match tok_at(t, pos) {
            Some(SpecToken::Keyword(k)) => match expr(t, pos + 1) {
                Err(m) => Err(m),
                Ok((v, p)) => if !moved(t, pos, p) {
                    Err(Seq::empty())
                } else {
                    init_fields(t, p, acc.push((ident(k), v)))
                },
            },
            other => Err("Expected :field in struct init, got "@ + opt_tok_debug(other)),
        }
    }
}

/// `(let [name value ..] body ..)`; with `let-mut` every binding is mutable.
pub open spec fn let_form(t: Seq<SpecSpanned>, pos: int, mutable: bool) -> Parsed<SpecExpr>
    decreases t.len() - pos, 0int,
{
    match advance(t, pos) {
        Err(m) => Err(m),
        Ok((_, p0)) => {
            match expect(t, p0, SpecToken::LBracket) {
                Err(m) => Err(m),
                Ok((_, p1)) => match let_bindings(t, p1, mutable, Seq::empty()) {
                    Err(m) => Err(m),
                    Ok((bindings, p2)) => match expect(t, p2, SpecToken::RBracket) {
                        Err(m) => Err(m),
                        Ok((_, p3)) => if !moved(t, pos, p3) {
                            Err(Seq::empty())
                        } else {
                            match exprs_closed(t, p3) {
                                Err(m) => Err(m),
                                Ok((body, p4)) => Ok((SpecExpr::Let { bindings, body }, p4)),
                            }
                        },
                    },
                },
            }
        },
    }
}

/// `[mut] name [: Type] value` bindings up to `]`, appended to `acc`.
pub open spec fn let_bindings(t: Seq<SpecSpanned>, pos: int, mutable: bool, acc: Seq<SpecLetBinding>) -> Parsed<
    Seq<SpecLetBinding>,
>
    decreases t.len() - pos, 2int,
{
    if at_tok(t, pos, SpecToken::RBracket) {
        Ok((acc, pos))
    } else {
        let (is_mut, p0) = if at_sym(t, pos, "mut"@) { (true, pos + 1) } else { (mutable, pos) };
        match expect_any_symbol(t, p0) {
            Err(m) => Err(m),
            Ok((name, p1)) => {
                let ann: Parsed<Option<Seq<char>>> = if at_sym(t, p1, ":"@) {
                    match type_str(t, p1 + 1) {
                        Err(m) => Err(m),
                        Ok((ty, p)) => Ok((Some(ty), p)),
                    }
                } else {
                    Ok((None, p1))
                };
                match ann {
                    Err(m) => Err(m),
                    Ok((type_ann, p2)) => if !moved(t, pos, p2) {
                        Err(Seq::empty())
                    } else {
                        match expr(t, p2) {
                            Err(m) => Err(m),
                            Ok((value, p3)) => if !moved(t, p2, p3) {
                                Err(Seq::empty())
                            } else {
                                let_bindings(
                                    t,
                                    p3,
                                    mutable,
                                    acc.push(SpecLetBinding { name: ident(name), mutable: is_mut, type_ann, value }),
                                )
                            },
                        }
                    },
                }
            },
        }
    }
}

/// `(if cond then [else])`.
pub open spec fn if_form(t: Seq<SpecSpanned>, pos: int) -> Parsed<SpecExpr>
    decreases t.len() - pos, 0int,
{
    match advance(t, pos) {
        Err(m) => Err(m),
        Ok((_, p0)) => {
            match expr(t, p0) {
                Err(m) => Err(m),
                Ok((c, p1)) => if !moved(t, p0, p1) {
                    Err(Seq::empty())
                } else {
                    match expr(t, p1) {
                        Err(m) => Err(m),
                        Ok((th, p2)) => if !moved(t, p1, p2) {
                            Err(Seq::empty())
                        } else {
                            let el: Parsed<Option<Box<SpecExpr>>> = if !at_tok(t, p2, SpecToken::RParen) {
                                match expr(t, p2) {
                                    Err(m) => Err(m),
                                    Ok((e, p)) => Ok((Some(Box::new(e)), p)),
                                }
                            } else {
                                Ok((None, p2))
                            };
                            match el {
                                Err(m) => Err(m),
                                Ok((else_, p3)) => match expect(t, p3, SpecToken::RParen) {
                                    Err(m) => Err(m),
                                    Ok((_, p4)) => Ok((SpecExpr::If { cond: Box::new(c), then: Box::new(th), else_ }, p4)),
                                },
                            }
                        },
                    }
                },
            }
        },
    }
}

/// `(fn [params] [-> Type] body ..)`.
pub open spec fn fn_form(t: Seq<SpecSpanned>, pos: int) -> Parsed<SpecExpr>
    decreases t.len() - pos, 0int,
{
    match advance(t, pos) {
        Err(m) => Err(m),
        Ok((_, p0)) => {
            match expect(t, p0, SpecToken::LBracket) {
                Err(m) => Err(m),
                Ok((_, p1)) => match params(t, p1, Seq::empty()) {
                    Err(m) => Err(m),
                    Ok((ps, p2)) => match expect(t, p2, SpecToken::RBracket) {
                        Err(m) => Err(m),
                        Ok((_, p3)) => match ret_type(t, p3) {
                            Err(m) => Err(m),
                            Ok((ret_type, p4)) => if !moved(t, pos, p4) {
                                Err(Seq::empty())
                            } else {
                                match exprs_closed(t, p4) {
                                    Err(m) => Err(m),
                                    Ok((body, p5)) => Ok((SpecExpr::Fn { params: ps, ret_type, body }, p5)),
                                }
                            },
                        },
                    },
                },
            }
        },
    }
}

/// `-> Type` when the next token is `->`.
pub open spec fn ret_type(t: Seq<SpecSpanned>, pos: int) -> Parsed<Option<Seq<char>>> {
    if at_tok(t, pos, SpecToken::Arrow) {
        match type_str(t, pos + 1) {
            Err(m) => Err(m),
            Ok((ty, p)) => Ok((Some(ty), p)),
        }
    } else {
        Ok((None, pos))
    }
}

/// `(match expr pattern body ..)`.
pub open spec fn match_form(t: Seq<SpecSpanned>, pos: int) -> Parsed<SpecExpr>
    decreases t.len() - pos, 0int,
{
    match advance(t, pos) {
        Err(m) => Err(m),
        Ok((_, p0)) => {
            match expr(t, p0) {
                Err(m) => Err(m),
                Ok((e, p1)) => if !moved(t, p0, p1) {
                    Err(Seq::empty())
                } else {
                    match arms(t, p1, Seq::empty()) {
                        Err(m) => Err(m),
                        Ok((arms, p2)) => match expect(t, p2, SpecToken::RParen) {
                            Err(m) => Err(m),
                            Ok((_, p3)) => Ok((SpecExpr::Match { expr: Box::new(e), arms }, p3)),
                        },
                    }
                },
            }
        },
    }
}

/// `pattern body` arms up to `)`, appended to `acc`.
pub open spec fn arms(t: Seq<SpecSpanned>, pos: int, acc: Seq<SpecMatchArm>) -> Parsed<Seq<SpecMatchArm>>
    decreases t.len() - pos, 3int,
{
    if at_tok(t, pos, SpecToken::RParen) {
        Ok((acc, pos))
    } else {
        match pattern(t, pos) {
            Err(m) => Err(m),
            Ok((pat, p1)) => if !moved(t, pos, p1) {
                Err(Seq::empty())
            } else {
                match expr(t, p1) {
                    Err(m) => Err(m),
                    Ok((body, p2)) => if !moved(t, p1, p2) {
                        Err(Seq::empty())
                    } else {
                        arms(t, p2, acc.push(SpecMatchArm { pattern: pat, guard: None, body }))
                    },
                }
            },
        }
    }
}

/// A pattern: `_`, a literal, a name or path (`x`, `None`, `Shape::Unit`),
/// `(Name p ..)` for a tuple struct or variant, or `[p ..]` for a tuple.
pub open spec fn pattern(t: Seq<SpecSpanned>, pos: int) -> Parsed<SpecPattern>
    decreases t.len() - pos, 2int,
{
    match tok_at(t, pos) {
        Some(SpecToken::Symbol(s)) => if s == "_"@ {
            Ok((SpecPattern::Wildcard, pos + 1))
        } else {
            Ok((SpecPattern::Binding(ident(s)), pos + 1))
        },
        Some(SpecToken::Integer(_)) | Some(SpecToken::Float(_)) | Some(SpecToken::Str(_))
        | Some(SpecToken::Bool(_)) | Some(SpecToken::Char(_)) | Some(SpecToken::Nil) => match expr(t, pos) {
            Err(m) => Err(m),
            Ok((e, p)) => Ok((SpecPattern::Literal(e), p)),
        },
        Some(SpecToken::LParen) => match expect_any_symbol(t, pos + 1) {
            Err(m) => Err(m),
            Ok((name, p1)) => match patterns_until(t, p1, SpecToken::RParen, Seq::empty()) {
                Err(m) => Err(m),
                Ok((fields, p2)) => match expect(t, p2, SpecToken::RParen) {
                    Err(m) => Err(m),
                    Ok((_, p3)) => Ok((SpecPattern::TupleStruct { name: ident(name), fields }, p3)),
                },
            },
        },
        Some(SpecToken::LBracket) => match patterns_until(t, pos + 1, SpecToken::RBracket, Seq::empty()) {
            Err(m) => Err(m),
            Ok((pats, p1)) => match expect(t, p1, SpecToken::RBracket) {
                Err(m) => Err(m),
                Ok((_, p2)) => Ok((SpecPattern::Tuple(pats), p2)),
            },
        },
        other => Err("Unexpected token in pattern: "@ + opt_tok_debug(other)),
    }
}

/// Patterns up to (not including) `close`, appended to `acc`.
pub open spec fn patterns_until(t: Seq<SpecSpanned>, pos: int, close: SpecToken, acc: Seq<SpecPattern>) -> Parsed<
    Seq<SpecPattern>,
>
    decreases t.len() - pos, 3int,
{
    if at_tok(t, pos, close) {
        Ok((acc, pos))
    } else {
        match pattern(t, pos) {
            Err(m) => Err(m),
            Ok((p, p1)) => if !moved(t, pos, p1) {
                Err(Seq::empty())
            } else {
                patterns_until(t, p1, close, acc.push(p))
            },
        }
    }
}

/// `(for [name iter] body ..)`.
pub open spec fn for_form(t: Seq<SpecSpanned>, pos: int) -> Parsed<SpecExpr>
    decreases t.len() - pos, 0int,
{
    match advance(t, pos) {
        Err(m) => Err(m),
        Ok((_, p0)) => {
            match expect(t, p0, SpecToken::LBracket) {
                Err(m) => Err(m),
                Ok((_, p1)) => match expect_any_symbol(t, p1) {
                    Err(m) => Err(m),
                    Ok((binding, p2)) => match expr(t, p2) {
                        Err(m) => Err(m),
                        Ok((iter, p3)) => if !moved(t, p2, p3) {
                            Err(Seq::empty())
                        } else {
                            match expect(t, p3, SpecToken::RBracket) {
                                Err(m) => Err(m),
                                Ok((_, p4)) => match exprs_closed(t, p4) {
                                    Err(m) => Err(m),
                                    Ok((body, p5)) => Ok(
                                        (SpecExpr::For { binding: ident(binding), iter: Box::new(iter), body }, p5),
                                    ),
                                },
                            }
                        },
                    },
                },
            }
        },
    }
}

/// `(while cond body ..)`.
pub open spec fn while_form(t: Seq<SpecSpanned>, pos: int) -> Parsed<SpecExpr>
    decreases t.len() - pos, 0int,
{
    match advance(t, pos) {
        Err(m) => Err(m),
        Ok((_, p0)) => {
            match expr(t, p0) {
                Err(m) => Err(m),
                Ok((cond, p1)) => if !moved(t, p0, p1) {
                    Err(Seq::empty())
                } else {
                    match exprs_closed(t, p1) {
                        Err(m) => Err(m),
                        Ok((body, p2)) => Ok((SpecExpr::While { cond: Box::new(cond), body }, p2)),
                    }
                },
            }
        },
    }
}

/// `(loop [name value ..] body ..)`; the bindings are optional.
pub open spec fn loop_form(t: Seq<SpecSpanned>, pos: int) -> Parsed<SpecExpr>
    decreases t.len() - pos, 0int,
{
    match advance(t, pos) {
        Err(m) => Err(m),
        Ok((_, p0)) => {
            let bs: Parsed<Seq<SpecLetBinding>> = if at_tok(t, p0, SpecToken::LBracket) {
                match expect(t, p0, SpecToken::LBracket) {
                    Err(m) => Err(m),
                    Ok((_, p1)) => match loop_bindings(t, p1, Seq::empty()) {
                        Err(m) => Err(m),
                        Ok((bs, p2)) => match expect(t, p2, SpecToken::RBracket) {
                            Err(m) => Err(m),
                            Ok((_, p3)) => Ok((bs, p3)),
                        },
                    },
                }
            } else {
                Ok((Seq::empty(), p0))
            };
            match bs {
                Err(m) => Err(m),
                Ok((bindings, p1)) => if !moved(t, pos, p1) {
                    Err(Seq::empty())
                } else {
                    match exprs_closed(t, p1) {
                        Err(m) => Err(m),
                        Ok((body, p2)) => Ok((SpecExpr::Loop { bindings, body }, p2)),
                    }
                },
            }
        },
    }
}

/// `name value` loop bindings up to `]`, appended to `acc`; each is mutable.
pub open spec fn loop_bindings(t: Seq<SpecSpanned>, pos: int, acc: Seq<SpecLetBinding>) -> Parsed<
    Seq<SpecLetBinding>,
>
    decreases t.len() - pos, 2int,
{
    if at_tok(t, pos, SpecToken::RBracket) {
        Ok((acc, pos))
    } else {
        match expect_any_symbol(t, pos) {
            Err(m) => Err(m),
            Ok((name, p1)) => match expr(t, p1) {
                Err(m) => Err(m),
                Ok((value, p2)) => if !moved(t, p1, p2) {
                    Err(Seq::empty())
                } else {
                    loop_bindings(
                        t,
                        p2,
                        acc.push(SpecLetBinding { name: ident(name), mutable: true, type_ann: None, value }),
                    )
                },
            },
        }
    }
}

/// Function parameters up to `]`, appended to `acc`: `&name`, `&mut name`,
/// `mut name` or `name`, each with an optional `: Type`.
pub open spec fn params(t: Seq<SpecSpanned>, pos: int, acc: Seq<SpecParam>) -> Parsed<Seq<SpecParam>>
    decreases t.len() - pos,
{
    if at_tok(t, pos, SpecToken::RBracket) {
        Ok((acc, pos))
    } else {
        let (is_ref, is_mut_ref, is_mut, p0) = if at_tok(t, pos, SpecToken::Ampersand) {
            if at_sym(t, pos + 1, "mut"@) {
                (false, true, false, pos + 2)
            } else {
                (true, false, false, pos + 1)
            }
        } else if at_sym(t, pos, "mut"@) {
            (false, false, true, pos + 1)
        } else {
            (false, false, false, pos)
        };
        match expect_any_symbol(t, p0) {
            Err(m) => Err(m),
            Ok((name, p1)) => {
                let ann: Parsed<Option<Seq<char>>> = if at_sym(t, p1, ":"@) {
                    match type_str(t, p1 + 1) {
                        Err(m) => Err(m),
                        Ok((ty, p)) => Ok((Some(ty), p)),
                    }
                } else {
                    Ok((None, p1))
                };
                match ann {
                    Err(m) => Err(m),
                    Ok((type_ann, p2)) => if !moved(t, pos, p2) {
                        Err(Seq::empty())
                    } else {
                        params(
                            t,
                            p2,
                            acc.push(SpecParam { name: ident(name), type_ann, is_ref, is_mut_ref, is_mut }),
                        )
                    },
                }
            },
        }
    }
}

// ── Items ───────────────────────────────────────────────────────────────

/// A whole program: top-level forms up to the end of the tokens.
pub open spec fn program(t: Seq<SpecSpanned>) -> Result<SpecProgram, Seq<char>> {
    match program_items(t, 0, Seq::empty()) {
        Err(m) => Err(m),
        Ok(items) => Ok(SpecProgram { items }),
    }
}

/// Top-level forms from `pos` to the end, appended to `acc`.
pub open spec fn program_items(t: Seq<SpecSpanned>, pos: int, acc: Seq<SpecTopLevel>) -> Result<
    Seq<SpecTopLevel>,
    Seq<char>,
>
    decreases t.len() - pos,
{
    if pos >= t.len() {
        Ok(acc)
    } else {
        match top_level(t, pos) {
            Err(m) => Err(m),
            Ok((item, p)) => if !moved(t, pos, p) {
                Err(Seq::empty())
            } else {
                program_items(t, p, acc.push(item))
            },
        }
    }
}

/// A top-level form: a definition chosen by the symbol after `(`, or an
/// expression.
pub open spec fn top_level(t: Seq<SpecSpanned>, pos: int) -> Parsed<SpecTopLevel>
    decreases t.len() - pos, 1int,
{
    let h = list_head(t, pos);
    if !at_tok(t, pos, SpecToken::LParen) || h is None {
        top_expr(t, pos)
    } else {
        let head = h->0;
        if head == "use"@ {
            match use_form(t, pos) {
                Err(m) => Err(m),
                Ok((path, p)) => Ok((SpecTopLevel::Use(path), p)),
            }
        } else if head == "extern-crate"@ {
            match extern_crate(t, pos) {
                Err(m) => Err(m),
                Ok((name, p)) => Ok((SpecTopLevel::ExternCrate(name), p)),
            }
        } else if head == "def"@ || head == "def-mut"@ || head == "const"@ {
            match def_form(t, pos) {
                Err(m) => Err(m),
                Ok((d, p)) => Ok((SpecTopLevel::Def(d), p)),
            }
        } else if head == "defn"@ || head == "defn-"@ || head == "defn-async"@ {
            match defn(t, pos) {
                Err(m) => Err(m),
                Ok((f, p)) => Ok((SpecTopLevel::Defn(f), p)),
            }
        } else if head == "defstruct"@ {
            match defstruct(t, pos) {
                Err(m) => Err(m),
                Ok((d, p)) => Ok((SpecTopLevel::DefStruct(d), p)),
            }
        } else if head == "defenum"@ {
            match defenum(t, pos) {
                Err(m) => Err(m),
                Ok((d, p)) => Ok((SpecTopLevel::DefEnum(d), p)),
            }
        } else if head == "deftrait"@ {
            match deftrait(t, pos) {
                Err(m) => Err(m),
                Ok((d, p)) => Ok((SpecTopLevel::DefTrait(d), p)),
            }
        } else if head == "defimpl"@ {
            match impl_form(t, pos) {
                Err(m) => Err(m),
                Ok((d, p)) => Ok((SpecTopLevel::Impl(d), p)),
            }
        } else if head == "defmod"@ {
            match mod_form(t, pos) {
                Err(m) => Err(m),
                Ok((d, p)) => Ok((SpecTopLevel::Mod(d), p)),
            }
        } else if head == "#!"@ {
            attr(t, pos)
        } else {
            top_expr(t, pos)
        }
    }
}

/// An expression at top level.
pub open spec fn top_expr(t: Seq<SpecSpanned>, pos: int) -> Parsed<SpecTopLevel> {
    match expr(t, pos) {
        Err(m) => Err(m),
        Ok((e, p)) => Ok((SpecTopLevel::Expr(e), p)),
    }
}

/// `(use path)`.
pub open spec fn use_form(t: Seq<SpecSpanned>, pos: int) -> Parsed<Seq<char>> {
    match expect(t, pos, SpecToken::LParen) {
        Err(m) => Err(m),
        Ok((_, p1)) => match expect_symbol(t, p1, "use"@) {
            Err(m) => Err(m),
            Ok((_, p2)) => match use_path(t, p2, Seq::empty()) {
                Err(m) => Err(m),
                Ok((path, p3)) => match expect(t, p3, SpecToken::RParen) {
                    Err(m) => Err(m),
                    Ok((_, p4)) => Ok((path, p4)),
                },
            },
        },
    }
}

/// The path of a `use` up to `)`, appended to `acc`: symbols one after
/// another, and `{a b}` groups written `{a, b}`.
pub open spec fn use_path(t: Seq<SpecSpanned>, pos: int, acc: Seq<char>) -> Parsed<Seq<char>>
    decreases t.len() - pos,
{
    if at_tok(t, pos, SpecToken::RParen) {
        Ok((acc, pos))
    } else {
        match advance(t, pos) {
            Err(m) => Err(m),
            Ok((SpecToken::Symbol(s), p1)) => use_path(t, p1, acc + ident(s)),
            Ok((SpecToken::LBrace, p1)) => match use_group(t, p1, acc.push('{'), true) {
                Err(m) => Err(m),
                Ok((acc2, p2)) => match expect(t, p2, SpecToken::RBrace) {
                    Err(m) => Err(m),
                    Ok((_, p3)) => if !moved(t, pos, p3) {
                        Err(Seq::empty())
                    } else {
                        use_path(t, p3, acc2.push('}'))
                    },
                },
            },
            Ok(_) => Err("Unexpected token in use path"@),
        }
    }
}

/// The names of a `{..}` group up to `}`, separated by `, `; tokens that
/// are not symbols are skipped.
pub open spec fn use_group(t: Seq<SpecSpanned>, pos: int, acc: Seq<char>, first: bool) -> Parsed<Seq<char>>
    decreases t.len() - pos,
{
    if at_tok(t, pos, SpecToken::RBrace) {
        Ok((acc, pos))
    } else {
        let acc1 = if first { acc } else { acc + ", "@ };
        match advance(t, pos) {
            Err(m) => Err(m),
            Ok((SpecToken::Symbol(s), p1)) => use_group(t, p1, acc1 + ident(s), false),
            Ok((_, p1)) => use_group(t, p1, acc1, false),
        }
    }
}

/// `(extern-crate name)`.
pub open spec fn extern_crate(t: Seq<SpecSpanned>, pos: int) -> Parsed<Seq<char>> {
    match expect(t, pos, SpecToken::LParen) {
        Err(m) => Err(m),
        Ok((_, p1)) => match expect_symbol(t, p1, "extern-crate"@) {
            Err(m) => Err(m),
            Ok((_, p2)) => match expect_any_symbol(t, p2) {
                Err(m) => Err(m),
                Ok((name, p3)) => match expect(t, p3, SpecToken::RParen) {
                    Err(m) => Err(m),
                    Ok((_, p4)) => Ok((ident(name), p4)),
                },
            },
        },
    }
}

/// `(def name [-> Type] value)`, and likewise `def-mut` and `const`.
pub open spec fn def_form(t: Seq<SpecSpanned>, pos: int) -> Parsed<SpecDef> {
    match expect(t, pos, SpecToken::LParen) {
        Err(m) => Err(m),
        Ok((_, p1)) => match expect_any_symbol(t, p1) {
            Err(m) => Err(m),
            Ok((form, p2)) => match expect_any_symbol(t, p2) {
                Err(m) => Err(m),
                Ok((name, p3)) => match ret_type(t, p3) {
                    Err(m) => Err(m),
                    Ok((type_ann, p4)) => match expr(t, p4) {
                        Err(m) => Err(m),
                        Ok((value, p5)) => match expect(t, p5, SpecToken::RParen) {
                            Err(m) => Err(m),
                            Ok((_, p6)) => Ok(
                                (
                                    SpecDef {
                                        is_pub: false,
                                        mutable: form == "def-mut"@,
                                        name: ident(name),
                                        type_ann,
                                        value,
                                        is_const: form == "const"@,
                                    },
                                    p6,
                                ),
                            ),
                        },
                    },
                },
            },
        },
    }
}

/// Optional `<A B>` generic parameters.
pub open spec fn opt_generics(t: Seq<SpecSpanned>, pos: int) -> Parsed<Seq<Seq<char>>> {
    if at_sym(t, pos, "<"@) {
        generics(t, pos)
    } else {
        Ok((Seq::empty(), pos))
    }
}

/// `<A B>` generic parameters.
pub open spec fn generics(t: Seq<SpecSpanned>, pos: int) -> Parsed<Seq<Seq<char>>> {
    match advance(t, pos) {
        Err(m) => Err(m),
        Ok((_, p)) => generic_names(t, p, Seq::empty()),
    }
}

/// Generic parameter names up to and with `>`, appended to `acc`.
pub open spec fn generic_names(t: Seq<SpecSpanned>, pos: int, acc: Seq<Seq<char>>) -> Parsed<Seq<Seq<char>>>
    decreases t.len() - pos,
{
    match expect_any_symbol(t, pos) {
        Err(m) => Err(m),
        Ok((g, p)) => if at_sym(t, p, ">"@) {
            Ok((acc.push(g), p + 1))
        } else {
            generic_names(t, p, acc.push(g))
        },
    }
}

/// `(defn name [<T ..>] [params] [-> Type] body ..)`; `defn-` is private
/// and `defn-async` is async.
pub open spec fn defn(t: Seq<SpecSpanned>, pos: int) -> Parsed<SpecDefn> {
    match expect(t, pos, SpecToken::LParen) {
        Err(m) => Err(m),
        Ok((_, p1)) => match expect_any_symbol(t, p1) {
            Err(m) => Err(m),
            Ok((form, p2)) => match expect_any_symbol(t, p2) {
                Err(m) => Err(m),
                Ok((name, p3)) => match opt_generics(t, p3) {
                    Err(m) => Err(m),
                    Ok((generics, p4)) => match expect(t, p4, SpecToken::LBracket) {
                        Err(m) => Err(m),
                        Ok((_, p5)) => match params(t, p5, Seq::empty()) {
                            Err(m) => Err(m),
                            Ok((ps, p6)) => match expect(t, p6, SpecToken::RBracket) {
                                Err(m) => Err(m),
                                Ok((_, p7)) => match ret_type(t, p7) {
                                    Err(m) => Err(m),
                                    Ok((ret_type, p8)) => match exprs_closed(t, p8) {
                                        Err(m) => Err(m),
                                        Ok((body, p9)) => Ok(
                                            (
                                                SpecDefn {
                                                    is_pub: form != "defn-"@,
                                                    name: ident(name),
                                                    generics,
                                                    params: ps,
                                                    ret_type,
                                                    body,
                                                    is_async: form == "defn-async"@,
                                                },
                                                p9,
                                            ),
                                        ),
                                    },
                                },
                            },
                        },
                    },
                },
            },
        },
    }
}

/// Optional `#[A B]` derives.
pub open spec fn opt_derives(t: Seq<SpecSpanned>, pos: int) -> Parsed<Seq<Seq<char>>> {
    if at_tok(t, pos, SpecToken::Hash) {
        derives(t, pos)
    } else {
        Ok((Seq::empty(), pos))
    }
}

/// `#[A B]` derives.
pub open spec fn derives(t: Seq<SpecSpanned>, pos: int) -> Parsed<Seq<Seq<char>>> {
    match advance(t, pos) {
        Err(m) => Err(m),
        Ok((_, p0)) => match expect(t, p0, SpecToken::LBracket) {
            Err(m) => Err(m),
            Ok((_, p1)) => match derive_names(t, p1, Seq::empty()) {
                Err(m) => Err(m),
                Ok((ds, p2)) => match expect(t, p2, SpecToken::RBracket) {
                    Err(m) => Err(m),
                    Ok((_, p3)) => Ok((ds, p3)),
                },
            },
        },
    }
}

/// Derived trait names up to `]`, appended to `acc`.
pub open spec fn derive_names(t: Seq<SpecSpanned>, pos: int, acc: Seq<Seq<char>>) -> Parsed<Seq<Seq<char>>>
    decreases t.len() - pos,
{
    if at_tok(t, pos, SpecToken::RBracket) {
        Ok((acc, pos))
    } else {
        match expect_any_symbol(t, pos) {
            Err(m) => Err(m),
            Ok((d, p)) => derive_names(t, p, acc.push(d)),
        }
    }
}

/// `(defstruct Name [<T ..>] [#[derives]] [[pub] field : Type ..])`.
pub open spec fn defstruct(t: Seq<SpecSpanned>, pos: int) -> Parsed<SpecDefStruct> {
    match expect(t, pos, SpecToken::LParen) {
        Err(m) => Err(m),
        Ok((_, p1)) => match expect_symbol(t, p1, "defstruct"@) {
            Err(m) => Err(m),
            Ok((_, p2)) => match expect_any_symbol(t, p2) {
                Err(m) => Err(m),
                Ok((name, p3)) => match opt_generics(t, p3) {
                    Err(m) => Err(m),
                    Ok((generics, p4)) => match opt_derives(t, p4) {
                        Err(m) => Err(m),
                        Ok((derives, p5)) => match expect(t, p5, SpecToken::LBracket) {
                            Err(m) => Err(m),
                            Ok((_, p6)) => match struct_fields(t, p6, Seq::empty()) {
                                Err(m) => Err(m),
                                Ok((fields, p7)) => match expect(t, p7, SpecToken::RBracket) {
                                    Err(m) => Err(m),
                                    Ok((_, p8)) => match expect(t, p8, SpecToken::RParen) {
                                        Err(m) => Err(m),
                                        Ok((_, p9)) => Ok(
                                            (
                                                SpecDefStruct {
                                                    is_pub: true,
                                                    name: ident(name),
                                                    generics,
                                                    fields,
                                                    derives,
                                                },
                                                p9,
                                            ),
                                        ),
                                    },
                                },
                            },
                        },
                    },
                },
            },
        },
    }
}

/// `[pub] name : Type` fields up to `]`, appended to `acc`.
pub open spec fn struct_fields(t: Seq<SpecSpanned>, pos: int, acc: Seq<SpecStructField>) -> Parsed<
    Seq<SpecStructField>,
>
    decreases t.len() - pos,
{
    if at_tok(t, pos, SpecToken::RBracket) {
        Ok((acc, pos))
    } else {
        let (is_pub, p0) = if at_sym(t, pos, "pub"@) { (true, pos + 1) } else { (false, pos) };
        match expect_any_symbol(t, p0) {
            Err(m) => Err(m),
            Ok((name, p1)) => match expect_symbol(t, p1, ":"@) {
                Err(m) => Err(m),
                Ok((_, p2)) => match type_str(t, p2) {
                    Err(m) => Err(m),
                    Ok((ty, p3)) => if !moved(t, pos, p3) {
                        Err(Seq::empty())
                    } else {
                        struct_fields(t, p3, acc.push(SpecStructField { is_pub, name: ident(name), type_ann: ty }))
                    },
                },
            },
        }
    }
}

/// `(defenum Name [<T ..>] [#[derives]] variant ..)`: a variant is a name,
/// or `(Name Type ..)`.
pub open spec fn defenum(t: Seq<SpecSpanned>, pos: int) -> Parsed<SpecDefEnum> {
    match expect(t, pos, SpecToken::LParen) {
        Err(m) => Err(m),
        Ok((_, p1)) => match expect_symbol(t, p1, "defenum"@) {
            Err(m) => Err(m),
            Ok((_, p2)) => match expect_any_symbol(t, p2) {
                Err(m) => Err(m),
                Ok((name, p3)) => match opt_generics(t, p3) {
                    Err(m) => Err(m),
                    Ok((generics, p4)) => match opt_derives(t, p4) {
                        Err(m) => Err(m),
                        Ok((derives, p5)) => match variants(t, p5, Seq::empty()) {
                            Err(m) => Err(m),
                            Ok((vs, p6)) => match expect(t, p6, SpecToken::RParen) {
                                Err(m) => Err(m),
                                Ok((_, p7)) => Ok(
                                    (
                                        SpecDefEnum { is_pub: true, name: ident(name), generics, variants: vs, derives },
                                        p7,
                                    ),
                                ),
                            },
                        },
                    },
                },
            },
        },
    }
}

/// Enum variants up to `)`, appended to `acc`.
pub open spec fn variants(t: Seq<SpecSpanned>, pos: int, acc: Seq<SpecEnumVariant>) -> Parsed<
    Seq<SpecEnumVariant>,
>
    decreases t.len() - pos,
{
    if at_tok(t, pos, SpecToken::RParen) {
        Ok((acc, pos))
    } else if at_tok(t, pos, SpecToken::LParen) {
        match expect_any_symbol(t, pos + 1) {
            Err(m) => Err(m),
            Ok((name, p1)) => match types_until(t, p1, SpecToken::RParen, Seq::empty()) {
                Err(m) => Err(m),
                Ok((types, p2)) => match expect(t, p2, SpecToken::RParen) {
                    Err(m) => Err(m),
                    Ok((_, p3)) => if !moved(t, pos, p3) {
                        Err(Seq::empty())
                    } else {
                        variants(
                            t,
                            p3,
                            acc.push(
                                SpecEnumVariant {
                                    name: ident(name),
                                    fields: if types.len() == 0 {
                                        SpecVariantFields::Unit
                                    } else {
                                        SpecVariantFields::Tuple(types)
                                    },
                                },
                            ),
                        )
                    },
                },
            },
        }
    } else {
        match expect_any_symbol(t, pos) {
            Err(m) => Err(m),
            Ok((name, p1)) => variants(
                t,
                p1,
                acc.push(SpecEnumVariant { name: ident(name), fields: SpecVariantFields::Unit }),
            ),
        }
    }
}

/// `(deftrait Name [<T ..>] (defn ..) ..)`.
pub open spec fn deftrait(t: Seq<SpecSpanned>, pos: int) -> Parsed<SpecDefTrait> {
    match expect(t, pos, SpecToken::LParen) {
        Err(m) => Err(m),
        Ok((_, p1)) => match expect_symbol(t, p1, "deftrait"@) {
            Err(m) => Err(m),
            Ok((_, p2)) => match expect_any_symbol(t, p2) {
                Err(m) => Err(m),
                Ok((name, p3)) => match opt_generics(t, p3) {
                    Err(m) => Err(m),
                    Ok((generics, p4)) => match defns_until(t, p4, Seq::empty()) {
                        Err(m) => Err(m),
                        Ok((methods, p5)) => match expect(t, p5, SpecToken::RParen) {
                            Err(m) => Err(m),
                            Ok((_, p6)) => Ok(
                                (SpecDefTrait { is_pub: true, name: ident(name), generics, methods }, p6),
                            ),
                        },
                    },
                },
            },
        },
    }
}

/// Function definitions up to `)`, appended to `acc`.
pub open spec fn defns_until(t: Seq<SpecSpanned>, pos: int, acc: Seq<SpecDefn>) -> Parsed<Seq<SpecDefn>>
    decreases t.len() - pos,
{
    if at_tok(t, pos, SpecToken::RParen) {
        Ok((acc, pos))
    } else {
        match defn(t, pos) {
            Err(m) => Err(m),
            Ok((d, p)) => if !moved(t, pos, p) {
                Err(Seq::empty())
            } else {
                defns_until(t, p, acc.push(d))
            },
        }
    }
}

/// `(defimpl Type [<T ..>] (defn ..) ..)` or
/// `(defimpl Trait [<T ..>] for Type (defn ..) ..)`.
pub open spec fn impl_form(t: Seq<SpecSpanned>, pos: int) -> Parsed<SpecImplBlock> {
    match expect(t, pos, SpecToken::LParen) {
        Err(m) => Err(m),
        Ok((_, p1)) => match expect_symbol(t, p1, "defimpl"@) {
            Err(m) => Err(m),
            Ok((_, p2)) => match expect_any_symbol(t, p2) {
                Err(m) => Err(m),
                Ok((first, p3)) => match opt_generics(t, p3) {
                    Err(m) => Err(m),
                    Ok((generics, p4)) => {
                        let named: Parsed<(Option<Seq<char>>, Seq<char>)> = if at_sym(t, p4, "for"@) {
                            match expect_any_symbol(t, p4 + 1) {
                                Err(m) => Err(m),
                                Ok((ty, p5)) => Ok(((Some(ident(first)), ident(ty)), p5)),
                            }
                        } else {
                            Ok(((None, ident(first)), p4))
                        };
                        match named {
                            Err(m) => Err(m),
                            Ok(((trait_name, typ_name), p5)) => match defns_until(t, p5, Seq::empty()) {
                                Err(m) => Err(m),
                                Ok((methods, p6)) => match expect(t, p6, SpecToken::RParen) {
                                    Err(m) => Err(m),
                                    Ok((_, p7)) => Ok((SpecImplBlock { typ_name, generics, trait_name, methods }, p7)),
                                },
                            },
                        }
                    },
                },
            },
        },
    }
}

/// `(defmod name item ..)`.
pub open spec fn mod_form(t: Seq<SpecSpanned>, pos: int) -> Parsed<SpecMod>
    decreases t.len() - pos, 0int,
{
    match expect(t, pos, SpecToken::LParen) {
        Err(m) => Err(m),
        Ok((_, p1)) => match expect_symbol(t, p1, "defmod"@) {
            Err(m) => Err(m),
            Ok((_, p2)) => match expect_any_symbol(t, p2) {
                Err(m) => Err(m),
                Ok((name, p3)) => match top_items(t, p3, Seq::empty()) {
                    Err(m) => Err(m),
                    Ok((items, p4)) => match expect(t, p4, SpecToken::RParen) {
                        Err(m) => Err(m),
                        Ok((_, p5)) => Ok((SpecMod { is_pub: true, name: ident(name), items }, p5)),
                    },
                },
            },
        },
    }
}

/// Top-level forms up to `)`, appended to `acc`.
pub open spec fn top_items(t: Seq<SpecSpanned>, pos: int, acc: Seq<SpecTopLevel>) -> Parsed<Seq<SpecTopLevel>>
    decreases t.len() - pos, 2int,
{
    if at_tok(t, pos, SpecToken::RParen) {
        Ok((acc, pos))
    } else {
        match top_level(t, pos) {
            Err(m) => Err(m),
            Ok((item, p)) => if !moved(t, pos, p) {
                Err(Seq::empty())
            } else {
                top_items(t, p, acc.push(item))
            },
        }
    }
}

/// `(#! name [(arg ..)] item)`: the item with the attribute `name(arg, ..)`.
pub open spec fn attr(t: Seq<SpecSpanned>, pos: int) -> Parsed<SpecTopLevel>
    decreases t.len() - pos, 0int,
{
    match expect(t, pos, SpecToken::LParen) {
        Err(m) => Err(m),
        Ok((_, p1)) => match expect_symbol(t, p1, "#!"@) {
            Err(m) => Err(m),
            Ok((_, p2)) => match expect_any_symbol(t, p2) {
                Err(m) => Err(m),
                Ok((name, p3)) => {
                    let a: Parsed<Seq<char>> = if at_tok(t, p3, SpecToken::LParen) {
                        match attr_args(t, p3 + 1, name.push('('), true) {
                            Err(m) => Err(m),
                            Ok((a, p4)) => match expect(t, p4, SpecToken::RParen) {
                                Err(m) => Err(m),
                                Ok((_, p5)) => Ok((a.push(')'), p5)),
                            },
                        }
                    } else {
                        Ok((name, p3))
                    };
                    match a {
                        Err(m) => Err(m),
                        Ok((text, p4)) => if !moved(t, pos, p4) {
                            Err(Seq::empty())
                        } else {
                            match top_level(t, p4) {
                                Err(m) => Err(m),
                                Ok((inner, p5)) => match expect(t, p5, SpecToken::RParen) {
                                    Err(m) => Err(m),
                                    Ok((_, p6)) => Ok((SpecTopLevel::Attr(text, Box::new(inner)), p6)),
                                },
                            }
                        },
                    }
                },
            },
        },
    }
}

/// Attribute arguments up to `)`, separated by `, `, appended to `acc`.
pub open spec fn attr_args(t: Seq<SpecSpanned>, pos: int, acc: Seq<char>, first: bool) -> Parsed<Seq<char>>
    decreases t.len() - pos,
{
    if at_tok(t, pos, SpecToken::RParen) {
        Ok((acc, pos))
    } else {
        let acc1 = if first { acc } else { acc + ", "@ };
        match expect_any_symbol(t, pos) {
            Err(m) => Err(m),
            Ok((a, p)) => attr_args(t, p, acc1 + a, false),
        }
    }
}

} // verus!
