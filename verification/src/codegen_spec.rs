//! The Rust text that the code generator writes for each kind of syntax,
//! as a function of the indentation level.
use vstd::prelude::*;
use crate::ast::{
    binop_text, unop_text, BinOpKind, SpecDefEnum, SpecDefStruct, SpecDefTrait, SpecDefn, SpecExpr,
    SpecImplBlock, SpecLetBinding, SpecMatchArm, SpecParam, SpecPattern, SpecProgram,
    SpecStructField, SpecTopLevel, SpecVariantFields, SpecEnumVariant, UnaryOpKind,
};
use crate::text::{concat, contains_seq, int_text, join, spec_to_uppercase, starts_with};

verus! {

/// Four spaces per indentation level.
pub open spec fn ws(n: nat) -> Seq<char>
    decreases n,
{
    if n == 0 {
        Seq::empty()
    } else {
        ws((n - 1) as nat) + "    "@
    }
}

/// How a character of a string literal is written between double quotes.
pub open spec fn esc_str_char(c: char) -> Seq<char> {
    if c == '\\' {
        "\\\\"@
    } else if c == '"' {
        "\\\""@
    } else if c == '\n' {
        "\\n"@
    } else if c == '\r' {
        "\\r"@
    } else if c == '\t' {
        "\\t"@
    } else {
        seq![c]
    }
}

/// The body of a Rust string literal holding `s`.
pub open spec fn esc_parts(s: Seq<char>) -> Seq<Seq<char>> {
    Seq::new(s.len(), |i: int| esc_str_char(s[i]))
}

pub open spec fn esc_str(s: Seq<char>) -> Seq<char> {
    concat(esc_parts(s))
}

/// The body of a Rust character literal holding `c`.
pub open spec fn esc_char(c: char) -> Seq<char> {
    if c == '\n' {
        "\\n"@
    } else if c == '\r' {
        "\\r"@
    } else if c == '\t' {
        "\\t"@
    } else if c == '\\' {
        "\\\\"@
    } else if c == '\'' {
        "\\'"@
    } else {
        seq![c]
    }
}

/// `: T` for an annotation, nothing without one.
pub open spec fn ann_text(t: Option<Seq<char>>) -> Seq<char> {
    match t {
        Some(t) => ": "@ + t,
        None => Seq::empty(),
    }
}

/// ` -> T` for a return type, nothing without one.
pub open spec fn ret_text(t: Option<Seq<char>>) -> Seq<char> {
    match t {
        Some(t) => " -> "@ + t,
        None => Seq::empty(),
    }
}

/// `<A, B>` for generic parameters, nothing without any.
pub open spec fn generics_text(g: Seq<Seq<char>>) -> Seq<char> {
    if g.len() > 0 {
        "<"@ + join(g, ", "@) + ">"@
    } else {
        Seq::empty()
    }
}

/// A closure parameter.
pub open spec fn closure_param_text(p: SpecParam) -> Seq<char> {
    (if p.is_mut { "mut "@ } else { Seq::empty() }) + p.name + ann_text(p.type_ann)
}

/// A function parameter: any reference parameter is written as a `self` receiver.
pub open spec fn param_text(p: SpecParam) -> Seq<char> {
    if p.is_ref {
        "&self"@
    } else if p.is_mut_ref {
        "&mut self"@
    } else if p.name == "self"@ {
        if p.is_mut {
            "mut self"@
        } else {
            "self"@
        }
    } else {
        (if p.is_mut { "mut "@ } else { Seq::empty() }) + p.name + ann_text(p.type_ann)
    }
}

pub open spec fn param_texts(ps: Seq<SpecParam>) -> Seq<Seq<char>> {
    Seq::new(ps.len(), |i: int| param_text(ps[i]))
}

pub open spec fn params_text(ps: Seq<SpecParam>) -> Seq<char> {
    join(param_texts(ps), ", "@)
}

pub open spec fn closure_param_texts(ps: Seq<SpecParam>) -> Seq<Seq<char>> {
    Seq::new(ps.len(), |i: int| closure_param_text(ps[i]))
}

/// The receiver of a method call: one leading `&` or `&mut` is dropped.
pub open spec fn receiver(e: SpecExpr) -> SpecExpr {
    match e {
        SpecExpr::Ref(x) => *x,
        SpecExpr::RefMut(x) => *x,
        _ => e,
    }
}

/// A `vec!` call whose only argument is a vector literal.
pub open spec fn is_vec_macro(name: Seq<char>, args: Seq<SpecExpr>) -> bool {
    name == "vec!"@ && args.len() == 1 && args[0] is Vec
}

/// The text of an expression.
pub open spec fn expr_text(e: SpecExpr, ind: nat) -> Seq<char>
    decreases e, 0int,
{
    match e {
        SpecExpr::Integer(n) => int_text(n),
        SpecExpr::Float(s) => if s.contains('.') { s } else { s + ".0"@ },
        SpecExpr::Str(s) => "\""@ + esc_str(s) + "\""@,
        SpecExpr::Char(c) => "'"@ + esc_char(c) + "'"@,
        SpecExpr::Bool(b) => if b { "true"@ } else { "false"@ },
        SpecExpr::Nil => "()"@,
        SpecExpr::Symbol(s) => s,
        SpecExpr::Keyword(k) => "\""@ + k + "\""@,
        SpecExpr::Vec(es) => "vec!["@ + join(texts(es, ind), ", "@) + "]"@,
        SpecExpr::HashMap(ps) => "std::collections::HashMap::from(["@ + join(pair_texts(ps, ind), ", "@) + "])"@,
        SpecExpr::Tuple(es) => "("@ + join(texts(es, ind), ", "@) + (if es.len() == 1 {
            ","@
        } else {
            Seq::empty()
        }) + ")"@,
        SpecExpr::Let { bindings, body } => "{\n"@ + concat(binding_lines(bindings, ind + 1)) + body_text(body, ind + 1)
            + ws(ind) + "}"@,
        SpecExpr::If { cond, then, else_ } => "if "@ + expr_text(*cond, ind) + " {\n"@ + ws(ind + 1) + expr_text(
            *then,
            ind + 1,
        ) + "\n"@ + ws(ind) + "}"@ + match else_ {
            Some(x) => " else {\n"@ + ws(ind + 1) + expr_text(*x, ind + 1) + "\n"@ + ws(ind) + "}"@,
            None => Seq::empty(),
        },
        SpecExpr::Match { expr, arms } => "match "@ + expr_text(*expr, ind) + " {\n"@ + concat(arm_texts(arms, ind + 1))
            + ws(ind) + "}"@,
        SpecExpr::Do(es) => "{\n"@ + body_text(es, ind + 1) + ws(ind) + "}"@,
        SpecExpr::Block(es) => "{\n"@ + body_text(es, ind + 1) + ws(ind) + "}"@,
        SpecExpr::Loop { bindings, body } => if bindings.len() > 0 {
            "{\n"@ + concat(loop_lets(bindings, ind + 1)) + ws(ind + 1) + "loop {"@ + "\n"@ + concat(
                loop_parts(body, binding_names(bindings), ind + 2),
            ) + ws(ind + 1) + "}"@ + "\n"@ + ws(ind) + "}"@
        } else {
            "loop {\n"@ + body_text(body, ind + 1) + ws(ind) + "}"@
        },
        SpecExpr::Recur(_) => "/* recur */ continue"@,
        SpecExpr::For { binding, iter, body } => "for "@ + binding + " in "@ + expr_text(*iter, ind) + " {\n"@
            + body_text(body, ind + 1) + ws(ind) + "}"@,
        SpecExpr::While { cond, body } => "while "@ + expr_text(*cond, ind) + " {\n"@ + body_text(body, ind + 1) + ws(
            ind,
        ) + "}"@,
        SpecExpr::Fn { params, ret_type, body } => "|"@ + join(closure_param_texts(params), ", "@) + "|"@ + ret_text(ret_type) + if body.len() == 1 {
            " "@ + expr_text(body[0], ind)
        } else {
            " {\n"@ + body_text(body, ind + 1) + ws(ind) + "}"@
        },
        SpecExpr::Call { func, args } => expr_text(*func, ind) + "("@ + join(texts(args, ind), ", "@) + ")"@,
        SpecExpr::MacroCall { name, args } => if is_vec_macro(name, args) {
            expr_text(args[0], ind)
        } else {
            name + "("@ + join(texts(args, ind), ", "@) + ")"@
        },
        SpecExpr::MethodCall { object, method, args } => expr_text(receiver(*object), ind) + "."@ + method + "("@
            + join(texts(args, ind), ", "@) + ")"@,
        SpecExpr::FieldAccess { object, field } => expr_text(*object, ind) + "."@ + field,
        SpecExpr::StaticCall { typ_name, method, args } => typ_name + "::"@ + method + "("@ + join(
            texts(args, ind),
            ", "@,
        ) + ")"@,
        SpecExpr::StructInit { name, fields } => name + " { "@ + join(named_texts(fields, ind), ", "@) + " }"@,
        SpecExpr::BinOp { op, left, right } => "("@ + expr_text(*left, ind) + " "@ + binop_text(op) + " "@ + expr_text(
            *right,
            ind,
        ) + ")"@,
        SpecExpr::UnaryOp { op, operand } => unop_text(op) + expr_text(*operand, ind),
        SpecExpr::Assign { target, value } => expr_text(*target, ind) + " = "@ + expr_text(*value, ind),
        SpecExpr::Ref(x) => "&"@ + expr_text(*x, ind),
        SpecExpr::RefMut(x) => "&mut "@ + expr_text(*x, ind),
        SpecExpr::Deref(x) => "*"@ + expr_text(*x, ind),
        SpecExpr::As { expr, typ_name } => "("@ + expr_text(*expr, ind) + " as "@ + typ_name + ")"@,
        SpecExpr::Range { start, end, inclusive } => expr_text(*start, ind) + (if inclusive {
            "..="@
        } else {
            ".."@
        }) + expr_text(*end, ind),
        SpecExpr::Return(v) => "return"@ + match v {
            Some(x) => " "@ + expr_text(*x, ind),
            None => Seq::empty(),
        },
        SpecExpr::Break(v) => "break"@ + match v {
            Some(x) => " "@ + expr_text(*x, ind),
            None => Seq::empty(),
        },
        SpecExpr::Continue => "continue"@,
        SpecExpr::Await(x) => expr_text(*x, ind) + ".await"@,
        SpecExpr::Try(x) => expr_text(*x, ind) + "?"@,
        SpecExpr::RawRust(s) => s,
        SpecExpr::Index { object, index } => expr_text(*object, ind) + "["@ + expr_text(*index, ind) + "]"@,
    }
}

/// The texts of a list of expressions.
pub open spec fn texts(es: Seq<SpecExpr>, ind: nat) -> Seq<Seq<char>>
    decreases es, 0int,
{
    Seq::new(es.len(), |i: int| if 0 <= i < es.len() { expr_text(es[i], ind) } else { Seq::empty() })
}

/// `(key, value)` for each entry of a map literal.
pub open spec fn pair_texts(ps: Seq<(SpecExpr, SpecExpr)>, ind: nat) -> Seq<Seq<char>>
    decreases ps, 0int,
{
    Seq::new(
        ps.len(),
        |i: int|
            if 0 <= i < ps.len() {
                "("@ + expr_text(ps[i].0, ind) + ", "@ + expr_text(ps[i].1, ind) + ")"@
            } else {
                Seq::empty()
            },
    )
}

/// `name: value` for each field of a struct literal.
pub open spec fn named_texts(fs: Seq<(Seq<char>, SpecExpr)>, ind: nat) -> Seq<Seq<char>>
    decreases fs, 0int,
{
    Seq::new(
        fs.len(),
        |i: int| if 0 <= i < fs.len() { fs[i].0 + ": "@ + expr_text(fs[i].1, ind) } else { Seq::empty() },
    )
}

/// The line of a `let` binding.
pub open spec fn binding_line(b: SpecLetBinding, ind: nat) -> Seq<char>
    decreases b, 0int,
{
    ws(ind) + "let "@ + (if b.mutable { "mut "@ } else { Seq::empty() }) + b.name + ann_text(b.type_ann) + " = "@
        + expr_text(b.value, ind) + ";\n"@
}

pub open spec fn binding_lines(bs: Seq<SpecLetBinding>, ind: nat) -> Seq<Seq<char>>
    decreases bs, 0int,
{
    Seq::new(bs.len(), |i: int| if 0 <= i < bs.len() { binding_line(bs[i], ind) } else { Seq::empty() })
}

/// The names that a list of bindings binds.
pub open spec fn binding_names(bs: Seq<SpecLetBinding>) -> Seq<Seq<char>> {
    Seq::new(bs.len(), |i: int| bs[i].name)
}

/// The line that sets up a loop variable.
pub open spec fn loop_lets(bs: Seq<SpecLetBinding>, ind: nat) -> Seq<Seq<char>>
    decreases bs, 0int,
{
    Seq::new(
        bs.len(),
        |i: int|
            if 0 <= i < bs.len() {
                ws(ind) + "let mut "@ + bs[i].name + " = "@ + expr_text(bs[i].value, ind) + ";\n"@
            } else {
                Seq::empty()
            },
    )
}

/// An expression written as a statement: blocks and loops and an `if`
/// without `else` stand alone, anything else ends with a semicolon.
pub open spec fn stmt_text(e: SpecExpr, ind: nat) -> Seq<char>
    decreases e, 1int,
{
    if e is Let || e is For || e is While || e is Loop || (e matches SpecExpr::If { else_, .. } && else_ is None) {
        ws(ind) + expr_text(e, ind) + "\n"@
    } else {
        ws(ind) + expr_text(e, ind) + ";\n"@
    }
}

/// A body: the last expression is its value, the others are statements.
pub open spec fn body_text(body: Seq<SpecExpr>, ind: nat) -> Seq<char>
    decreases body, 1int,
{
    concat(body_parts(body, ind))
}

/// The parts of a body: its statements, then its value on a line of its own.
pub open spec fn body_parts(body: Seq<SpecExpr>, ind: nat) -> Seq<Seq<char>>
    decreases body, 0int,
{
        Seq::new(
            body.len(),
            |i: int|
                if 0 <= i < body.len() {
                    if i == body.len() - 1 {
                        ws(ind) + expr_text(body[i], ind) + "\n"@
                    } else {
                        stmt_text(body[i], ind)
                    }
                } else {
                    Seq::empty()
                },
        )
}

/// A match arm.
pub open spec fn arm_text(a: SpecMatchArm, ind: nat) -> Seq<char>
    decreases a, 0int,
{
    ws(ind) + pattern_text(a.pattern, ind) + match a.guard {
        Some(g) => " if "@ + expr_text(*g, ind),
        None => Seq::empty(),
    } + " => "@ + match a.body {
        SpecExpr::Do(stmts) => "{\n"@ + body_text(stmts, ind + 1) + ws(ind) + "}"@,
        other => expr_text(other, ind),
    } + ",\n"@
}

pub open spec fn arm_texts(arms: Seq<SpecMatchArm>, ind: nat) -> Seq<Seq<char>>
    decreases arms, 0int,
{
    Seq::new(arms.len(), |i: int| if 0 <= i < arms.len() { arm_text(arms[i], ind) } else { Seq::empty() })
}

/// The statements of a loop body, with the last one in tail position.
pub open spec fn loop_parts(body: Seq<SpecExpr>, vars: Seq<Seq<char>>, ind: nat) -> Seq<Seq<char>>
    decreases body, 0int,
{
    Seq::new(
        body.len(),
        |i: int|
            if 0 <= i < body.len() {
                loop_expr_text(body[i], vars, i == body.len() - 1, ind)
            } else {
                Seq::empty()
            },
    )
}

/// `recur` in tail position: each argument goes to a temporary, then each
/// loop variable takes its temporary, then the loop continues.
pub open spec fn recur_text(args: Seq<SpecExpr>, vars: Seq<Seq<char>>, ind: nat) -> Seq<char>
    decreases args, 1int,
{
    concat(recur_lets(args, if vars.len() < args.len() { vars.len() } else { args.len() }, ind)) + concat(recur_sets(vars, ind))
        + ws(ind) + "continue;"@ + "\n"@
}

/// `let __recur_i = arg;` for the first `n` arguments.
pub open spec fn recur_lets(args: Seq<SpecExpr>, n: nat, ind: nat) -> Seq<Seq<char>>
    decreases args, 0int,
{
    Seq::new(
        n,
        |i: int|
            if 0 <= i < args.len() {
                ws(ind) + "let __recur_"@ + int_text(i) + " = "@ + expr_text(args[i], ind) + ";\n"@
            } else {
                Seq::empty()
            },
    )
}

/// `var = __recur_i;` for each loop variable.
pub open spec fn recur_sets(vars: Seq<Seq<char>>, ind: nat) -> Seq<Seq<char>> {
    Seq::new(vars.len(), |i: int| ws(ind) + vars[i] + " = __recur_"@ + int_text(i) + ";\n"@)
}

/// A statement of a `loop` body: in tail position `recur` becomes
/// assignments and `continue`, an `if` is followed into, and any other value
/// leaves the loop with `break`.
pub open spec fn loop_expr_text(e: SpecExpr, vars: Seq<Seq<char>>, tail: bool, ind: nat) -> Seq<char>
    decreases e, 2int,
{
    if tail {
        match e {
            SpecExpr::Recur(args) => recur_text(args, vars, ind),
            SpecExpr::If { cond, then, else_ } => ws(ind) + "if "@ + expr_text(*cond, ind) + " {\n"@ + loop_expr_text(
                *then,
                vars,
                true,
                ind + 1,
            ) + ws(ind) + "}"@ + match else_ {
                Some(x) => " else {\n"@ + loop_expr_text(*x, vars, true, ind + 1) + ws(ind) + "}"@,
                None => Seq::empty(),
            } + "\n"@,
            _ => ws(ind) + "break "@ + expr_text(e, ind) + ";\n"@,
        }
    } else {
        stmt_text(e, ind)
    }
}

/// The text of a pattern.
pub open spec fn pattern_text(p: SpecPattern, ind: nat) -> Seq<char>
    decreases p, 0int,
{
    match p {
        SpecPattern::Wildcard => "_"@,
        SpecPattern::Literal(e) => expr_text(e, ind),
        SpecPattern::Binding(n) => n,
        SpecPattern::Tuple(ps) => "("@ + join(pattern_texts(ps, ind), ", "@) + ")"@,
        SpecPattern::Struct { name, fields } => name + " { "@ + join(named_pattern_texts(fields, ind), ", "@) + " }"@,
        SpecPattern::TupleStruct { name, fields } => name + "("@ + join(pattern_texts(fields, ind), ", "@) + ")"@,
        SpecPattern::Ref(x) => "&"@ + pattern_text(*x, ind),
        SpecPattern::Or(ps) => join(pattern_texts(ps, ind), " | "@),
    }
}

pub open spec fn pattern_texts(ps: Seq<SpecPattern>, ind: nat) -> Seq<Seq<char>>
    decreases ps, 0int,
{
    Seq::new(ps.len(), |i: int| if 0 <= i < ps.len() { pattern_text(ps[i], ind) } else { Seq::empty() })
}

pub open spec fn named_pattern_texts(fs: Seq<(Seq<char>, SpecPattern)>, ind: nat) -> Seq<Seq<char>>
    decreases fs, 0int,
{
    Seq::new(
        fs.len(),
        |i: int| if 0 <= i < fs.len() { fs[i].0 + ": "@ + pattern_text(fs[i].1, ind) } else { Seq::empty() },
    )
}

// ── Items ───────────────────────────────────────────────────────────────

/// A function definition.
pub open spec fn defn_text(f: SpecDefn, ind: nat) -> Seq<char> {
    ws(ind) + (if f.is_pub { "pub "@ } else { Seq::empty() }) + (if f.is_async { "async "@ } else { Seq::empty() })
        + "fn "@ + f.name + generics_text(f.generics) + "("@ + params_text(f.params) + ")"@ + ret_text(f.ret_type)
        + " {\n"@ + body_text(f.body, ind + 1) + ws(ind) + "}"@ + "\n"@
}

/// A top-level `def`, `def-mut` or `const`: the name is upper-cased.
pub open spec fn def_text(is_pub: bool, mutable: bool, is_const: bool, name: Seq<char>, ty: Option<Seq<char>>, value: SpecExpr, ind: nat) -> Seq<char> {
    ws(ind) + (if is_pub { "pub "@ } else { Seq::empty() }) + (if is_const {
        "const "@
    } else if mutable {
        "static mut "@
    } else {
        "static "@
    }) + spec_to_uppercase(name) + ann_text(ty) + " = "@ + expr_text(value, ind) + ";\n"@
}

/// `#[derive(..)]` on its own line, when there is anything to derive.
pub open spec fn derive_line(derives: Seq<Seq<char>>, ind: nat) -> Seq<char> {
    if derives.len() > 0 {
        ws(ind) + "#[derive("@ + join(derives, ", "@) + ")]"@ + "\n"@
    } else {
        Seq::empty()
    }
}

pub open spec fn struct_field_line(f: SpecStructField, ind: nat) -> Seq<char> {
    ws(ind) + (if f.is_pub { "pub "@ } else { Seq::empty() }) + f.name + ": "@ + f.type_ann + ",\n"@
}

pub open spec fn struct_field_lines(fs: Seq<SpecStructField>, ind: nat) -> Seq<Seq<char>> {
    Seq::new(fs.len(), |i: int| struct_field_line(fs[i], ind))
}

pub open spec fn struct_text(s: SpecDefStruct, ind: nat) -> Seq<char> {
    derive_line(s.derives, ind) + ws(ind) + (if s.is_pub { "pub "@ } else { Seq::empty() }) + "struct "@ + s.name
        + generics_text(s.generics) + " {\n"@ + concat(struct_field_lines(s.fields, ind + 1))
        + ws(ind) + "}"@ + "\n"@
}

/// `name: Type` for each field of a struct-like variant.
pub open spec fn field_decls(fs: Seq<SpecStructField>) -> Seq<Seq<char>> {
    Seq::new(fs.len(), |i: int| fs[i].name + ": "@ + fs[i].type_ann)
}

pub open spec fn variant_line(v: SpecEnumVariant, ind: nat) -> Seq<char> {
    ws(ind) + v.name + match v.fields {
        SpecVariantFields::Unit => Seq::empty(),
        SpecVariantFields::Tuple(ts) => "("@ + join(ts, ", "@) + ")"@,
        SpecVariantFields::Struct(fs) => " { "@ + join(field_decls(fs), ", "@) + " }"@,
    } + ",\n"@
}

pub open spec fn variant_lines(vs: Seq<SpecEnumVariant>, ind: nat) -> Seq<Seq<char>> {
    Seq::new(vs.len(), |i: int| variant_line(vs[i], ind))
}

pub open spec fn enum_text(e: SpecDefEnum, ind: nat) -> Seq<char> {
    derive_line(e.derives, ind) + ws(ind) + (if e.is_pub { "pub "@ } else { Seq::empty() }) + "enum "@ + e.name
        + generics_text(e.generics) + " {\n"@ + concat(variant_lines(e.variants, ind + 1))
        + ws(ind) + "}"@ + "\n"@
}

/// A trait method: a signature when it has no body, else a definition.
pub open spec fn trait_method_text(m: SpecDefn, ind: nat) -> Seq<char> {
    if m.body.len() == 0 {
        ws(ind) + "fn "@ + m.name + "("@ + params_text(m.params) + ")"@ + ret_text(m.ret_type) + ";\n"@
    } else {
        defn_text(m, ind)
    }
}

pub open spec fn trait_method_lines(ms: Seq<SpecDefn>, ind: nat) -> Seq<Seq<char>> {
    Seq::new(ms.len(), |i: int| trait_method_text(ms[i], ind))
}

pub open spec fn trait_text(t: SpecDefTrait, ind: nat) -> Seq<char> {
    ws(ind) + (if t.is_pub { "pub "@ } else { Seq::empty() }) + "trait "@ + t.name + generics_text(t.generics) + " {\n"@
        + concat(trait_method_lines(t.methods, ind + 1)) + ws(ind) + "}"@ + "\n"@
}

pub open spec fn impl_method_lines(ms: Seq<SpecDefn>, ind: nat) -> Seq<Seq<char>> {
    Seq::new(ms.len(), |i: int| defn_text(ms[i], ind) + "\n"@)
}

pub open spec fn impl_text(b: SpecImplBlock, ind: nat) -> Seq<char> {
    ws(ind) + "impl"@ + generics_text(b.generics) + " "@ + match b.trait_name {
        Some(t) => t + " for "@,
        None => Seq::empty(),
    } + b.typ_name + generics_text(b.generics) + " {\n"@ + concat(impl_method_lines(b.methods, ind + 1)) + ws(ind) + "}"@
        + "\n"@
}

/// The text of a top-level item.
pub open spec fn top_text(t: SpecTopLevel, ind: nat) -> Seq<char>
    decreases t, 0int,
{
    match t {
        SpecTopLevel::Use(p) => ws(ind) + "use "@ + p + ";"@ + "\n"@,
        SpecTopLevel::ExternCrate(n) => ws(ind) + "extern crate "@ + n + ";"@ + "\n"@,
        SpecTopLevel::Def(d) => def_text(d.is_pub, d.mutable, d.is_const, d.name, d.type_ann, d.value, ind),
        SpecTopLevel::Defn(f) => defn_text(f, ind),
        SpecTopLevel::DefStruct(s) => struct_text(s, ind),
        SpecTopLevel::DefEnum(e) => enum_text(e, ind),
        SpecTopLevel::DefTrait(tr) => trait_text(tr, ind),
        SpecTopLevel::Impl(b) => impl_text(b, ind),
        SpecTopLevel::Mod(m) => ws(ind) + (if m.is_pub { "pub "@ } else { Seq::empty() }) + "mod "@ + m.name + " {\n"@
            + concat(top_lines(m.items, ind + 1)) + ws(ind) + "}"@ + "\n"@,
        SpecTopLevel::Attr(a, inner) => ws(ind) + "#["@ + a + "]"@ + "\n"@ + top_text(*inner, ind),
        SpecTopLevel::Expr(e) => ws(ind) + expr_text(e, ind) + ";\n"@,
    }
}

/// Each item followed by a line break.
pub open spec fn top_lines(items: Seq<SpecTopLevel>, ind: nat) -> Seq<Seq<char>>
    decreases items, 0int,
{
    Seq::new(items.len(), |i: int| if 0 <= i < items.len() { top_text(items[i], ind) + "\n"@ } else { Seq::empty() })
}

/// The Rust text of a whole program.
pub open spec fn program_text(p: SpecProgram) -> Seq<char> {
    concat(top_lines(p.items, 0))
}

// ── Laws ────────────────────────────────────────────────────────────────

/// The text of a program is the text of its items, one after another: the
/// text of two programs joined is the first's text followed by the second's.
pub proof fn lemma_program_text_concat(a: Seq<SpecTopLevel>, b: Seq<SpecTopLevel>)
    ensures
        program_text(SpecProgram { items: a + b }) == program_text(SpecProgram { items: a }) + program_text(
            SpecProgram { items: b },
        ),
{
    assert(top_lines(a + b, 0) =~= top_lines(a, 0) + top_lines(b, 0));
    crate::text::lemma_concat_append(top_lines(a, 0), top_lines(b, 0));
}

/// `k` opening parentheses.
pub open spec fn open_parens(k: nat) -> Seq<char> {
    Seq::new(k, |i: int| '(')
}

/// ` op e)` for each operand after the first.
pub open spec fn fold_tails(op: BinOpKind, es: Seq<SpecExpr>, ind: nat) -> Seq<Seq<char>> {
    Seq::new((es.len() - 1) as nat, |i: int| " "@ + binop_text(op) + " "@ + texts(es, ind)[i + 1] + ")"@)
}

/// Variadic operators fold to the left: `(op e0 e1 .. en)` is written as
/// `((e0 op e1) op .. en)`, that is one `(` per operator, the first operand,
/// then ` op ei)` for each further operand in order.
pub proof fn lemma_fold_text(op: BinOpKind, es: Seq<SpecExpr>, ind: nat)
    requires
        es.len() >= 1,
    ensures
        expr_text(crate::grammar::fold_binop(op, es), ind) == open_parens((es.len() - 1) as nat) + texts(
            es,
            ind,
        )[0] + concat(fold_tails(op, es, ind)),
    decreases es.len(),
{
    let n = es.len();
    if n == 1 {
        assert(open_parens(0) =~= Seq::<char>::empty());
        assert(fold_tails(op, es, ind) =~= Seq::<Seq<char>>::empty());
    } else {
        let init = es.drop_last();
        lemma_fold_text(op, init, ind);
        let a = open_parens((n - 2) as nat);
        let t0 = texts(init, ind)[0];
        let tails = fold_tails(op, init, ind);
        let last = " "@ + binop_text(op) + " "@ + expr_text(es.last(), ind) + ")"@;
        assert(texts(init, ind)[0] == texts(es, ind)[0]);
        assert(fold_tails(op, es, ind) =~= tails.push(last));
        crate::text::lemma_concat_push(fold_tails(op, es, ind), (n - 2) as int);
        assert(fold_tails(op, es, ind).take((n - 2) as int) =~= tails);
        assert(fold_tails(op, es, ind).take((n - 1) as int) =~= fold_tails(op, es, ind));
        reveal_strlit("(");
        assert(open_parens((n - 1) as nat) =~= "("@ + a);
        let inner = a + t0 + concat(tails);
        assert(expr_text(crate::grammar::fold_binop(op, es), ind) == "("@ + inner + " "@ + binop_text(op) + " "@
            + expr_text(es.last(), ind) + ")"@);
        crate::text::lemma_seq_add_assoc("("@, a, t0);
        crate::text::lemma_seq_add_assoc("("@, a + t0, concat(tails));
        crate::text::lemma_seq_add_assoc("("@ + a + t0, concat(tails), " "@);
        crate::text::lemma_seq_add_assoc(concat(tails), " "@, binop_text(op));
        crate::text::lemma_seq_add_assoc("("@ + a + t0, concat(tails) + " "@, binop_text(op));
        assert(("("@ + inner + " "@ + binop_text(op) + " "@ + expr_text(es.last(), ind) + ")"@) =~= (
        "("@ + a + t0 + (concat(tails) + last)));
    }
}


// ── The syntax table ────────────────────────────────────────────────────

/// The forms of the syntax table become the Rust they stand for: `&x`,
/// `&mut x`, `*x`, `!x`, `-x`, `(x as T)`, `a..b` and `a..=b`, `x?`,
/// `x.await`, `x = v`, `x[i]`, `vec![..]`, calls `f(..)`, static calls
/// `T::m(..)`, macro calls `m!(..)` (but for `vec!` of a literal),
/// struct literals `S { f: v }` and raw Rust as written.
pub proof fn lemma_syntax_table(a: SpecExpr, b: SpecExpr, es: Seq<SpecExpr>, name: Seq<char>, m: Seq<char>, ind: nat)
    ensures
        expr_text(SpecExpr::Ref(Box::new(a)), ind) == "&"@ + expr_text(a, ind),
        expr_text(SpecExpr::RefMut(Box::new(a)), ind) == "&mut "@ + expr_text(a, ind),
        expr_text(SpecExpr::Deref(Box::new(a)), ind) == "*"@ + expr_text(a, ind),
        expr_text(SpecExpr::UnaryOp { op: UnaryOpKind::Not, operand: Box::new(a) }, ind) == "!"@ + expr_text(a, ind),
        expr_text(SpecExpr::UnaryOp { op: UnaryOpKind::Neg, operand: Box::new(a) }, ind) == "-"@ + expr_text(a, ind),
        expr_text(SpecExpr::As { expr: Box::new(a), typ_name: name }, ind) == "("@ + expr_text(a, ind) + " as "@ + name
            + ")"@,
        expr_text(SpecExpr::Range { start: Box::new(a), end: Box::new(b), inclusive: false }, ind) == expr_text(a, ind)
            + ".."@ + expr_text(b, ind),
        expr_text(SpecExpr::Range { start: Box::new(a), end: Box::new(b), inclusive: true }, ind) == expr_text(a, ind)
            + "..="@ + expr_text(b, ind),
        expr_text(SpecExpr::Try(Box::new(a)), ind) == expr_text(a, ind) + "?"@,
        expr_text(SpecExpr::Await(Box::new(a)), ind) == expr_text(a, ind) + ".await"@,
        expr_text(SpecExpr::Assign { target: Box::new(a), value: Box::new(b) }, ind) == expr_text(a, ind) + " = "@
            + expr_text(b, ind),
        expr_text(SpecExpr::Index { object: Box::new(a), index: Box::new(b) }, ind) == expr_text(a, ind) + "["@
            + expr_text(b, ind) + "]"@,
        expr_text(SpecExpr::BinOp { op: BinOpKind::Lt, left: Box::new(a), right: Box::new(b) }, ind) == "("@
            + expr_text(a, ind) + " < "@ + expr_text(b, ind) + ")"@,
        expr_text(SpecExpr::Vec(es), ind) == "vec!["@ + join(texts(es, ind), ", "@) + "]"@,
        expr_text(SpecExpr::Call { func: Box::new(a), args: es }, ind) == expr_text(a, ind) + "("@ + join(
            texts(es, ind),
            ", "@,
        ) + ")"@,
        expr_text(SpecExpr::StaticCall { typ_name: name, method: m, args: es }, ind) == name + "::"@ + m + "("@
            + join(texts(es, ind), ", "@) + ")"@,
        name != "vec!"@ ==> expr_text(SpecExpr::MacroCall { name, args: es }, ind) == name + "("@ + join(
            texts(es, ind),
            ", "@,
        ) + ")"@,
        expr_text(SpecExpr::RawRust(name), ind) == name,
        expr_text(SpecExpr::Nil, ind) == "()"@,
        expr_text(SpecExpr::Bool(true), ind) == "true"@ && expr_text(SpecExpr::Bool(false), ind) == "false"@,
{
    reveal_strlit(" < ");
    reveal_strlit("<");
    reveal_strlit(" ");
    let lt = SpecExpr::BinOp { op: BinOpKind::Lt, left: Box::new(a), right: Box::new(b) };
    assert(expr_text(lt, ind) =~= "("@ + expr_text(a, ind) + " < "@ + expr_text(b, ind) + ")"@);
}

// ── Impl headers ────────────────────────────────────────────────────────

/// An impl block names its type followed by the block's generic parameters
/// just before its opening brace (`impl<T> Stack<T> {`), and declares the
/// same parameters after `impl`; a block without generics names the bare
/// type.
#[verifier::rlimit(40)]
pub proof fn lemma_impl_header(b: SpecImplBlock, ind: nat)
    ensures
        b.generics.len() > 0 ==> contains_seq(
            impl_text(b, ind),
            b.typ_name + "<"@ + join(b.generics, ", "@) + ">"@ + " {\n"@,
        ),
        b.generics.len() > 0 ==> starts_with(
            impl_text(b, ind).skip(ws(ind).len() as int),
            "impl"@ + "<"@ + join(b.generics, ", "@) + ">"@ + " "@,
        ),
        b.generics.len() == 0 ==> contains_seq(impl_text(b, ind), b.typ_name + " {\n"@),
{
    let g = generics_text(b.generics);
    let tr = match b.trait_name {
        Some(t) => t + " for "@,
        None => Seq::<char>::empty(),
    };
    let pre = ws(ind) + "impl"@ + g + " "@ + tr;
    let target = b.typ_name + g + " {\n"@;
    let a3 = pre + b.typ_name + g + " {\n"@;
    let t = impl_text(b, ind);
    let i = pre.len() as int;
    assert(t.subrange(i, i + target.len()) =~= target) by {
        assert(t == a3 + concat(impl_method_lines(b.methods, ind + 1)) + ws(ind) + "}"@ + "\n"@);
        assert forall|k: int| 0 <= k < target.len() implies t[i + k] == target[k] by {
            assert(a3[i + k] == target[k]);
        }
    }
    if b.generics.len() > 0 {
        let p = b.typ_name + "<"@ + join(b.generics, ", "@) + ">"@ + " {\n"@;
        assert(target =~= p);
        assert(t.subrange(i, i + p.len()) == p);
        let head = "impl"@ + "<"@ + join(b.generics, ", "@) + ">"@ + " "@;
        let w = ws(ind).len() as int;
        assert(t.skip(w).take(head.len() as int) =~= head) by {
            assert(t == a3 + concat(impl_method_lines(b.methods, ind + 1)) + ws(ind) + "}"@ + "\n"@);
            assert forall|k: int| 0 <= k < head.len() implies t[w + k] == head[k] by {
                assert(pre[w + k] == head[k]);
                assert(a3[w + k] == pre[w + k]);
            }
        }
    } else {
        let p = b.typ_name + " {\n"@;
        assert(target =~= p);
        assert(t.subrange(i, i + p.len()) == p);
    }
}

/// A function's generic parameters follow its name: `fn f<T>(`.
#[verifier::rlimit(40)]
pub proof fn lemma_defn_generics(f: SpecDefn, ind: nat)
    requires
        f.generics.len() > 0,
    ensures
        contains_seq(defn_text(f, ind), "fn "@ + f.name + "<"@ + join(f.generics, ", "@) + ">"@ + "("@),
{
    let pre = ws(ind) + (if f.is_pub { "pub "@ } else { Seq::empty() }) + (if f.is_async {
        "async "@
    } else {
        Seq::empty()
    });
    let a = pre + "fn "@ + f.name + generics_text(f.generics) + "("@;
    let p = "fn "@ + f.name + "<"@ + join(f.generics, ", "@) + ">"@ + "("@;
    let t = defn_text(f, ind);
    let i = pre.len() as int;
    assert(t == a + params_text(f.params) + ")"@ + ret_text(f.ret_type) + " {\n"@ + body_text(f.body, ind + 1) + ws(ind)
        + "}"@ + "\n"@);
    assert(t.subrange(i, i + p.len()) =~= p) by {
        assert forall|k: int| 0 <= k < p.len() implies t[i + k] == p[k] by {
            assert(a[i + k] == p[k]);
        }
    }
}

/// A struct's generic parameters follow its name: `struct S<T> {`.
#[verifier::rlimit(40)]
pub proof fn lemma_struct_generics(s: SpecDefStruct, ind: nat)
    requires
        s.generics.len() > 0,
    ensures
        contains_seq(struct_text(s, ind), "struct "@ + s.name + "<"@ + join(s.generics, ", "@) + ">"@ + " {\n"@),
{
    let pre = derive_line(s.derives, ind) + ws(ind) + (if s.is_pub { "pub "@ } else { Seq::empty() });
    let a = pre + "struct "@ + s.name + generics_text(s.generics) + " {\n"@;
    let p = "struct "@ + s.name + "<"@ + join(s.generics, ", "@) + ">"@ + " {\n"@;
    let t = struct_text(s, ind);
    let i = pre.len() as int;
    assert(t == a + concat(struct_field_lines(s.fields, ind + 1)) + ws(ind) + "}"@ + "\n"@);
    assert(t.subrange(i, i + p.len()) =~= p) by {
        assert forall|k: int| 0 <= k < p.len() implies t[i + k] == p[k] by {
            assert(a[i + k] == p[k]);
        }
    }
}

/// An enum's generic parameters follow its name: `enum E<T> {`.
#[verifier::rlimit(40)]
pub proof fn lemma_enum_generics(e: SpecDefEnum, ind: nat)
    requires
        e.generics.len() > 0,
    ensures
        contains_seq(enum_text(e, ind), "enum "@ + e.name + "<"@ + join(e.generics, ", "@) + ">"@ + " {\n"@),
{
    let pre = derive_line(e.derives, ind) + ws(ind) + (if e.is_pub { "pub "@ } else { Seq::empty() });
    let a = pre + "enum "@ + e.name + generics_text(e.generics) + " {\n"@;
    let p = "enum "@ + e.name + "<"@ + join(e.generics, ", "@) + ">"@ + " {\n"@;
    let t = enum_text(e, ind);
    let i = pre.len() as int;
    assert(t == a + concat(variant_lines(e.variants, ind + 1)) + ws(ind) + "}"@ + "\n"@);
    assert(t.subrange(i, i + p.len()) =~= p) by {
        assert forall|k: int| 0 <= k < p.len() implies t[i + k] == p[k] by {
            assert(a[i + k] == p[k]);
        }
    }
}

/// A trait's generic parameters follow its name: `trait R<T> {`.
#[verifier::rlimit(40)]
pub proof fn lemma_trait_generics(r: SpecDefTrait, ind: nat)
    requires
        r.generics.len() > 0,
    ensures
        contains_seq(trait_text(r, ind), "trait "@ + r.name + "<"@ + join(r.generics, ", "@) + ">"@ + " {\n"@),
{
    let pre = ws(ind) + (if r.is_pub { "pub "@ } else { Seq::empty() });
    let a = pre + "trait "@ + r.name + generics_text(r.generics) + " {\n"@;
    let p = "trait "@ + r.name + "<"@ + join(r.generics, ", "@) + ">"@ + " {\n"@;
    let t = trait_text(r, ind);
    let i = pre.len() as int;
    assert(t == a + concat(trait_method_lines(r.methods, ind + 1)) + ws(ind) + "}"@ + "\n"@);
    assert(t.subrange(i, i + p.len()) =~= p) by {
        assert forall|k: int| 0 <= k < p.len() implies t[i + k] == p[k] by {
            assert(a[i + k] == p[k]);
        }
    }
}

// ── What the escaped literals denote ────────────────────────────────────

/// The character a Rust escape `\e` stands for, for the simple escapes.
pub open spec fn escaped(e: char) -> Option<char> {
    if e == 'n' {
        Some('\n')
    } else if e == 'r' {
        Some('\r')
    } else if e == 't' {
        Some('\t')
    } else if e == '\\' {
        Some('\\')
    } else if e == '"' {
        Some('"')
    } else if e == '\'' {
        Some('\'')
    } else if e == '0' {
        Some('\0')
    } else {
        None
    }
}

/// The text a Rust string literal with body `b` denotes, reading the simple
/// escapes; none when the body holds an unescaped `"` or carriage return, or
/// an escape other than the simple ones.
pub open spec fn str_literal_value(b: Seq<char>) -> Option<Seq<char>>
    decreases b.len(),
{
    if b.len() == 0 {
        Some(Seq::empty())
    } else if b[0] == '\\' {
        if b.len() < 2 {
            None
        } else {
            match (escaped(b[1]), str_literal_value(b.skip(2))) {
                (Some(x), Some(rest)) => Some(seq![x] + rest),
                _ => None,
            }
        }
    } else if b[0] == '"' || b[0] == '\r' {
        None
    } else {
        match str_literal_value(b.skip(1)) {
            Some(rest) => Some(seq![b[0]] + rest),
            None => None,
        }
    }
}

/// The character a Rust character literal with body `b` denotes: one
/// character that needs no escape, or a simple escape.
pub open spec fn char_literal_value(b: Seq<char>) -> Option<char> {
    if b.len() == 1 && b[0] != '\'' && b[0] != '\\' && b[0] != '\n' && b[0] != '\r' && b[0] != '\t' {
        Some(b[0])
    } else if b.len() == 2 && b[0] == '\\' {
        escaped(b[1])
    } else {
        None
    }
}

/// The escaped text of `s` is the escape of its first character followed
/// by the escaped rest.
proof fn lemma_esc_str_first(s: Seq<char>)
    requires
        s.len() > 0,
    ensures
        esc_str(s) == esc_str_char(s[0]) + esc_str(s.drop_first()),
{
    let rest = s.drop_first();
    assert(esc_parts(s) =~= seq![esc_str_char(s[0])] + esc_parts(rest));
    crate::text::lemma_concat_append(seq![esc_str_char(s[0])], esc_parts(rest));
    let one = seq![esc_str_char(s[0])];
    assert(one.drop_last() =~= Seq::<Seq<char>>::empty());
    assert(concat(one.drop_last()) == Seq::<char>::empty());
    assert(Seq::<char>::empty() + esc_str_char(s[0]) =~= esc_str_char(s[0]));
}

/// What the code generator writes in a string literal, the lexer reads back:
/// reading the escaped body of `s` up to a closing quote gives `s`, and
/// stops just after the quote.
pub proof fn lemma_string_literal_reads_back(inp: Seq<char>, st: crate::lexer::LexPos, acc: Seq<char>, s: Seq<char>)
    requires
        0 <= st.pos,
        st.pos + esc_str(s).len() + 1 <= inp.len(),
        inp.subrange(st.pos, st.pos + esc_str(s).len() + 1) == esc_str(s) + seq!['"'],
    ensures
        crate::lexer::lex_string(inp, st, acc) == Ok::<(Seq<char>, crate::lexer::LexPos), Seq<char>>(
            (acc + s, crate::lexer::further(st, esc_str(s).len() + 1int)),
        ),
    decreases s.len(),
{
    reveal_strlit("\\\\");
    reveal_strlit("\\\"");
    reveal_strlit("\\n");
    reveal_strlit("\\r");
    reveal_strlit("\\t");
    let n = esc_str(s).len() as int;
    assert(inp[st.pos] == inp.subrange(st.pos, st.pos + n + 1)[0]);
    if s.len() == 0 {
        assert(esc_parts(s) =~= Seq::<Seq<char>>::empty());
        assert(esc_str(s) =~= Seq::<char>::empty());
        assert(acc + s =~= acc);
    } else {
        let c = s[0];
        let rest = s.drop_first();
        lemma_esc_str_first(s);
        let x = esc_str_char(c);
        let e = esc_str(rest);
        let st2 = crate::lexer::further(st, x.len() as int);
        assert(inp.subrange(st2.pos, st2.pos + e.len() + 1) =~= e + seq!['"']) by {
            assert forall|k: int| 0 <= k < e.len() + 1 implies inp[st2.pos + k] == (e + seq!['"'])[k] by {
                assert(inp[st2.pos + k] == inp.subrange(st.pos, st.pos + n + 1)[x.len() + k]);
            }
        }
        lemma_string_literal_reads_back(inp, st2, acc.push(c), rest);
        assert(acc.push(c) + rest =~= acc + s);
        if x.len() == 2 {
            assert(inp[st.pos + 1] == inp.subrange(st.pos, st.pos + n + 1)[1]);
        }
    }
}

/// A string literal written around `esc_str(s)` denotes `s`, and its body
/// holds no line break, carriage return or tab.
pub proof fn lemma_esc_str_round_trip(s: Seq<char>)
    ensures
        str_literal_value(esc_str(s)) == Some(s),
        !esc_str(s).contains('\n'),
        !esc_str(s).contains('\r'),
        !esc_str(s).contains('\t'),
    decreases s.len(),
{
    reveal_strlit("\\\\");
    reveal_strlit("\\\"");
    reveal_strlit("\\n");
    reveal_strlit("\\r");
    reveal_strlit("\\t");
    if s.len() == 0 {
        assert(esc_parts(s) =~= Seq::<Seq<char>>::empty());
        assert(esc_str(s) =~= Seq::<char>::empty());
        assert(s =~= Seq::<char>::empty());
    } else {
        let c = s[0];
        let rest = s.drop_first();
        lemma_esc_str_round_trip(rest);
        assert(esc_parts(s) =~= seq![esc_str_char(c)] + esc_parts(rest));
        crate::text::lemma_concat_append(seq![esc_str_char(c)], esc_parts(rest));
        assert(concat(seq![esc_str_char(c)]) =~= esc_str_char(c)) by {
            let one = seq![esc_str_char(c)];
            assert(one.drop_last() =~= Seq::<Seq<char>>::empty());
            assert(concat(one.drop_last()) == Seq::<char>::empty());
            assert(one.last() == esc_str_char(c));
            assert(Seq::<char>::empty() + esc_str_char(c) =~= esc_str_char(c));
        }
        let x = esc_str_char(c);
        let e = esc_str(rest);
        assert(esc_str(s) == x + e);
        if x.len() == 2 {
            assert((x + e).skip(2) =~= e);
        } else {
            assert((x + e).skip(1) =~= e);
        }
        assert(seq![c] + rest =~= s);
        assert forall|k: int| 0 <= k < (x + e).len() implies (x + e)[k] != '\n' && (x + e)[k] != '\r' && (x + e)[k]
            != '\t' by {
            if k >= x.len() {
                assert((x + e)[k] == e[k - x.len()]);
            }
        }
    }
}

/// A character literal written around `esc_char(c)` denotes `c`.
pub proof fn lemma_esc_char_round_trip(c: char)
    ensures
        char_literal_value(esc_char(c)) == Some(c),
{
    reveal_strlit("\\n");
    reveal_strlit("\\r");
    reveal_strlit("\\t");
    reveal_strlit("\\\\");
    reveal_strlit("\\'");
}

} // verus!
