//! Code generator: writes the Rust source text of a syntax tree.
//!
//! Each generator returns the text of one piece of syntax at a given
//! indentation; `CodeGen` collects the text of whole programs.
use vstd::prelude::*;
use crate::ast::{
    arm_view, arms_view, binding_view, bindings_view, defn_view, defns_view, exprs_view, fields_view,
    named_exprs_view, named_patterns_view, opt_str_view, pairs_view, param_view, params_view, patterns_view,
    strs_view, toplevels_view, variants_view, Def, DefEnum, DefStruct, DefTrait, Defn, Expr, Impl, LetBinding,
    MatchArm, Mod, Param, Pattern, Program, SpecDefEnum, SpecDefStruct, SpecDefTrait, SpecImplBlock, StructField,
    TopLevel, VariantFields,
};
use crate::codegen_spec::{
    ann_text, arm_text, arm_texts, binding_line, binding_lines, body_parts, body_text, closure_param_texts,
    defn_text, derive_line, enum_text, esc_char, esc_parts, esc_str, expr_text, field_decls,
    generics_text, impl_method_lines, impl_text, loop_expr_text, loop_lets, loop_parts, named_pattern_texts,
    named_texts, pair_texts, param_text, param_texts, params_text, pattern_text, pattern_texts, program_text,
    recur_lets, recur_sets, recur_text, ret_text, stmt_text, struct_field_lines, struct_text,
    texts, top_lines, top_text, trait_method_lines, trait_text, variant_line, variant_lines,
    ws, def_text, binding_names,
};
use crate::text::{
    chars_of_string, concat, contains_char, empty_string, i64_to_string, join, join_strings, lemma_concat_push,
    lemma_join_push, push_char, push_str, str_eq, str_to_uppercase, string_of, usize_to_string,
};

verus! {

broadcast use crate::text::lemma_seq_add_empty;

/// The indentation of the lines being written: four spaces a level.
pub(crate) struct Indent {
    pub(crate) text: String,
    pub(crate) level: Ghost<nat>,
}

impl Indent {
    pub(crate) open spec fn lvl(&self) -> nat {
        self.level@
    }

    pub(crate) open spec fn wf(&self) -> bool {
        self.text@ == ws(self.level@)
    }

    pub(crate) fn top() -> (r: Indent)
        ensures
            r.wf(),
            r.lvl() == 0,
    {
        Indent { text: empty_string(), level: Ghost(0) }
    }

    fn deeper(&self) -> (r: Indent)
        requires
            self.wf(),
        ensures
            r.wf(),
            r.lvl() == self.lvl() + 1,
    {
        let mut t = string_of(self.text.as_str());
        push_str(&mut t, "    ");
        Indent { text: t, level: Ghost(self.level@ + 1) }
    }

    /// A fresh string holding the indentation.
    fn start(&self) -> (r: String)
        ensures
            r@ == self.text@,
    {
        string_of(self.text.as_str())
    }
}

/// Appends `t` to `r`.
fn append(r: &mut String, t: &String)
    ensures
        final(r)@ == old(r)@ + t@,
{
    push_str(r, t.as_str());
}

// ── Expressions ─────────────────────────────────────────────────────────

fn gen_expr(expr: &Expr, ind: &Indent) -> (r: String)
    requires
        ind.wf(),
    ensures
        r@ == expr_text(expr@, ind.lvl()),
    decreases expr, 1int,
{
    match expr {
        Expr::Integer(_) | Expr::Float(_) | Expr::Str(_) | Expr::Char(_) | Expr::Bool(_) | Expr::Nil
        | Expr::Symbol(_) | Expr::Keyword(_) => gen_literal(expr),
        Expr::Vec(_) | Expr::HashMap(_) | Expr::Tuple(_) => gen_collection(expr, ind),
        Expr::Let { .. } => gen_let(expr, ind),
        Expr::If { .. } => gen_if(expr, ind),
        Expr::Match { .. } => gen_match(expr, ind),
        Expr::Do(_) | Expr::Block(_) | Expr::For { .. } | Expr::While { .. } => gen_block(expr, ind),
        Expr::Loop { .. } => gen_loop(expr, ind),
        Expr::Fn { .. } => gen_fn_expr(expr, ind),
        Expr::Call { .. } | Expr::MacroCall { .. } | Expr::MethodCall { .. } | Expr::FieldAccess { .. }
        | Expr::StaticCall { .. } | Expr::StructInit { .. } => gen_call(expr, ind),
        Expr::BinOp { .. } | Expr::UnaryOp { .. } | Expr::Assign { .. } | Expr::Ref(_) | Expr::RefMut(_)
        | Expr::Deref(_) | Expr::As { .. } | Expr::Range { .. } => gen_op(expr, ind),
        Expr::Recur(_) | Expr::Return(_) | Expr::Break(_) | Expr::Continue | Expr::Await(_) | Expr::Try(_)
        | Expr::RawRust(_) | Expr::Index { .. } => gen_jump(expr, ind),
    }
}

fn gen_literal(expr: &Expr) -> (r: String)
    requires
        expr is Integer || expr is Float || expr is Str || expr is Char || expr is Bool || expr is Nil
            || expr is Symbol || expr is Keyword,
    ensures
        forall|n: nat| r@ == #[trigger] expr_text(expr@, n),
{
    match expr {
        Expr::Integer(n) => i64_to_string(*n),
        Expr::Float(f) => {
            let mut r = string_of(f.as_str());
            let cs = chars_of_string(f);
            if !contains_char(&cs, '.') {
                push_str(&mut r, ".0");
            }
            r
        },
        Expr::Str(s) => {
            let mut r = string_of("\"");
            append(&mut r, &escape_str(s));
            push_str(&mut r, "\"");
            r
        },
        Expr::Char(c) => {
            let mut r = string_of("'");
            append(&mut r, &escape_char(*c));
            push_str(&mut r, "'");
            r
        },
        Expr::Bool(b) => if *b { string_of("true") } else { string_of("false") },
        Expr::Nil => string_of("()"),
        Expr::Symbol(s) => string_of(s.as_str()),
        Expr::Keyword(k) => {
            let mut r = string_of("\"");
            append(&mut r, k);
            push_str(&mut r, "\"");
            r
        },
        _ => empty_string(),
    }
}

fn gen_collection(expr: &Expr, ind: &Indent) -> (r: String)
    requires
        ind.wf(),
        expr is Vec || expr is HashMap || expr is Tuple,
    ensures
        r@ == expr_text(expr@, ind.lvl()),
    decreases expr, 0int,
{
    match expr {
        Expr::Vec(elems) => {
            let mut r = string_of("vec![");
            append(&mut r, &gen_exprs(elems, ", ", ind));
            push_str(&mut r, "]");
            r
        },
        Expr::HashMap(pairs) => {
            let mut r = string_of("std::collections::HashMap::from([");
            append(&mut r, &gen_pairs(pairs, ind));
            push_str(&mut r, "])");
            r
        },
        Expr::Tuple(elems) => {
            let mut r = string_of("(");
            append(&mut r, &gen_exprs(elems, ", ", ind));
            if elems.len() == 1 {
                push_str(&mut r, ",");
            }
            push_str(&mut r, ")");
            r
        },
        _ => empty_string(),
    }
}

/// `{`, the body one level deeper, and `}` at this level.
fn gen_braced_body(body: &Vec<Expr>, ind: &Indent) -> (r: String)
    requires
        ind.wf(),
    ensures
        r@ == "{\n"@ + body_text(exprs_view(body@), ind.lvl() + 1) + ws(ind.lvl()) + "}"@,
    decreases body, 1int,
{
    let mut r = string_of("{\n");
    append(&mut r, &gen_body(body, &ind.deeper()));
    append(&mut r, &ind.text);
    push_str(&mut r, "}");
    r
}

fn gen_block(expr: &Expr, ind: &Indent) -> (r: String)
    requires
        ind.wf(),
        expr is Do || expr is Block || expr is For || expr is While,
    ensures
        r@ == expr_text(expr@, ind.lvl()),
    decreases expr, 0int,
{
    match expr {
        Expr::Do(exprs) => gen_braced_body(exprs, ind),
        Expr::Block(exprs) => gen_braced_body(exprs, ind),
        Expr::For { binding, iter, body } => {
            let mut r = string_of("for ");
            append(&mut r, binding);
            push_str(&mut r, " in ");
            append(&mut r, &gen_expr(iter, ind));
            push_str(&mut r, " {\n");
            append(&mut r, &gen_body(body, &ind.deeper()));
            append(&mut r, &ind.text);
            push_str(&mut r, "}");
            r
        },
        Expr::While { cond, body } => {
            let mut r = string_of("while ");
            append(&mut r, &gen_expr(cond, ind));
            push_str(&mut r, " {\n");
            append(&mut r, &gen_body(body, &ind.deeper()));
            append(&mut r, &ind.text);
            push_str(&mut r, "}");
            r
        },
        _ => empty_string(),
    }
}

fn gen_call(expr: &Expr, ind: &Indent) -> (r: String)
    requires
        ind.wf(),
        expr is Call || expr is MacroCall || expr is MethodCall || expr is FieldAccess || expr is StaticCall
            || expr is StructInit,
    ensures
        r@ == expr_text(expr@, ind.lvl()),
    decreases expr, 0int,
{
    match expr {
        Expr::Call { func, args } => {
            let mut r = gen_expr(func, ind);
            push_str(&mut r, "(");
            append(&mut r, &gen_exprs(args, ", ", ind));
            push_str(&mut r, ")");
            r
        },
        Expr::MacroCall { name, args } => {
            let vec_macro = str_eq(name.as_str(), "vec!") && args.len() == 1 && match &args[0] {
                Expr::Vec(_) => true,
                _ => false,
            };
            assert(vec_macro == crate::codegen_spec::is_vec_macro(name@, exprs_view(args@)));
            if vec_macro {
                gen_expr(&args[0], ind)
            } else {
                let mut r = string_of(name.as_str());
                push_str(&mut r, "(");
                append(&mut r, &gen_exprs(args, ", ", ind));
                push_str(&mut r, ")");
                r
            }
        },
        Expr::MethodCall { object, method, args } => {
            let mut r = match &**object {
                Expr::Ref(inner) => gen_expr(inner, ind),
                Expr::RefMut(inner) => gen_expr(inner, ind),
                other => gen_expr(other, ind),
            };
            assert(r@ == expr_text(crate::codegen_spec::receiver(object@), ind.lvl()));
            push_str(&mut r, ".");
            append(&mut r, method);
            push_str(&mut r, "(");
            append(&mut r, &gen_exprs(args, ", ", ind));
            push_str(&mut r, ")");
            r
        },
        Expr::FieldAccess { object, field } => {
            let mut r = gen_expr(object, ind);
            push_str(&mut r, ".");
            append(&mut r, field);
            r
        },
        Expr::StaticCall { typ_name, method, args } => {
            let mut r = string_of(typ_name.as_str());
            push_str(&mut r, "::");
            append(&mut r, method);
            push_str(&mut r, "(");
            append(&mut r, &gen_exprs(args, ", ", ind));
            push_str(&mut r, ")");
            r
        },
        Expr::StructInit { name, fields } => {
            let mut r = string_of(name.as_str());
            push_str(&mut r, " { ");
            append(&mut r, &gen_named(fields, ind));
            push_str(&mut r, " }");
            r
        },
        _ => empty_string(),
    }
}

fn gen_op(expr: &Expr, ind: &Indent) -> (r: String)
    requires
        ind.wf(),
        expr is BinOp || expr is UnaryOp || expr is Assign || expr is Ref || expr is RefMut || expr is Deref
            || expr is As || expr is Range,
    ensures
        r@ == expr_text(expr@, ind.lvl()),
    decreases expr, 0int,
{
    match expr {
        Expr::BinOp { op, left, right } => {
            let mut r = string_of("(");
            append(&mut r, &gen_expr(left, ind));
            push_str(&mut r, " ");
            push_str(&mut r, op.to_rust());
            push_str(&mut r, " ");
            append(&mut r, &gen_expr(right, ind));
            push_str(&mut r, ")");
            r
        },
        Expr::UnaryOp { op, operand } => {
            let mut r = string_of(op.to_rust());
            append(&mut r, &gen_expr(operand, ind));
            r
        },
        Expr::Assign { target, value } => {
            let mut r = gen_expr(target, ind);
            push_str(&mut r, " = ");
            append(&mut r, &gen_expr(value, ind));
            r
        },
        Expr::Ref(inner) => {
            let mut r = string_of("&");
            append(&mut r, &gen_expr(inner, ind));
            r
        },
        Expr::RefMut(inner) => {
            let mut r = string_of("&mut ");
            append(&mut r, &gen_expr(inner, ind));
            r
        },
        Expr::Deref(inner) => {
            let mut r = string_of("*");
            append(&mut r, &gen_expr(inner, ind));
            r
        },
        Expr::As { expr: inner, typ_name } => {
            let mut r = string_of("(");
            append(&mut r, &gen_expr(inner, ind));
            push_str(&mut r, " as ");
            append(&mut r, typ_name);
            push_str(&mut r, ")");
            r
        },
        Expr::Range { start, end, inclusive } => {
            let mut r = gen_expr(start, ind);
            if *inclusive {
                push_str(&mut r, "..=");
            } else {
                push_str(&mut r, "..");
            }
            append(&mut r, &gen_expr(end, ind));
            r
        },
        _ => empty_string(),
    }
}

/// ` value` after `return` or `break`, when there is a value.
fn gen_opt_value(val: &Option<Box<Expr>>, ind: &Indent) -> (r: String)
    requires
        ind.wf(),
    ensures
        r@ == match val {
            Some(x) => " "@ + expr_text(x@, ind.lvl()),
            None => Seq::empty(),
        },
    decreases val, 1int,
{
    match val {
        Some(v) => {
            let mut r = string_of(" ");
            append(&mut r, &gen_expr(v, ind));
            r
        },
        None => empty_string(),
    }
}

fn gen_jump(expr: &Expr, ind: &Indent) -> (r: String)
    requires
        ind.wf(),
        expr is Recur || expr is Return || expr is Break || expr is Continue || expr is Await || expr is Try
            || expr is RawRust || expr is Index,
    ensures
        r@ == expr_text(expr@, ind.lvl()),
    decreases expr, 0int,
{
    match expr {
        Expr::Recur(_) => string_of("/* recur */ continue"),
        Expr::Return(val) => {
            let mut r = string_of("return");
            append(&mut r, &gen_opt_value(val, ind));
            r
        },
        Expr::Break(val) => {
            let mut r = string_of("break");
            append(&mut r, &gen_opt_value(val, ind));
            r
        },
        Expr::Continue => string_of("continue"),
        Expr::Await(inner) => {
            let mut r = gen_expr(inner, ind);
            push_str(&mut r, ".await");
            r
        },
        Expr::Try(inner) => {
            let mut r = gen_expr(inner, ind);
            push_str(&mut r, "?");
            r
        },
        Expr::RawRust(code) => string_of(code.as_str()),
        Expr::Index { object, index } => {
            let mut r = gen_expr(object, ind);
            push_str(&mut r, "[");
            append(&mut r, &gen_expr(index, ind));
            push_str(&mut r, "]");
            r
        },
        _ => empty_string(),
    }
}

/// The expressions of `es`, separated by `sep`.
fn gen_exprs(es: &Vec<Expr>, sep: &str, ind: &Indent) -> (r: String)
    requires
        ind.wf(),
    ensures
        r@ == join(texts(exprs_view(es@), ind.lvl()), sep@),
    decreases es, 0int,
{
    let ghost parts = texts(exprs_view(es@), ind.lvl());
    let mut r = empty_string();
    let mut i: usize = 0;
    while i < es.len()
        invariant
            i <= es.len(),
            ind.wf(),
            parts == texts(exprs_view(es@), ind.lvl()),
            r@ == join(parts.take(i as int), sep@),
        decreases es.len() - i,
    {
        proof { lemma_join_push(parts, sep@, i as int); }
        if i > 0 {
            push_str(&mut r, sep);
        }
        append(&mut r, &gen_expr(&es[i], ind));
        i += 1;
    }
    assert(parts.take(es.len() as int) == parts);
    r
}

fn gen_pairs(pairs: &Vec<(Expr, Expr)>, ind: &Indent) -> (r: String)
    requires
        ind.wf(),
    ensures
        r@ == join(pair_texts(pairs_view(pairs@), ind.lvl()), ", "@),
    decreases pairs, 0int,
{
    let ghost parts = pair_texts(pairs_view(pairs@), ind.lvl());
    let mut r = empty_string();
    let mut i: usize = 0;
    while i < pairs.len()
        invariant
            i <= pairs.len(),
            ind.wf(),
            parts == pair_texts(pairs_view(pairs@), ind.lvl()),
            r@ == join(parts.take(i as int), ", "@),
        decreases pairs.len() - i,
    {
        proof { lemma_join_push(parts, ", "@, i as int); }
        if i > 0 {
            push_str(&mut r, ", ");
        }
        let mut p = string_of("(");
        append(&mut p, &gen_expr(&pairs[i].0, ind));
        push_str(&mut p, ", ");
        append(&mut p, &gen_expr(&pairs[i].1, ind));
        push_str(&mut p, ")");
        append(&mut r, &p);
        i += 1;
    }
    assert(parts.take(pairs.len() as int) == parts);
    r
}

fn gen_named(fields: &Vec<(String, Expr)>, ind: &Indent) -> (r: String)
    requires
        ind.wf(),
    ensures
        r@ == join(named_texts(named_exprs_view(fields@), ind.lvl()), ", "@),
    decreases fields, 0int,
{
    let ghost parts = named_texts(named_exprs_view(fields@), ind.lvl());
    let mut r = empty_string();
    let mut i: usize = 0;
    while i < fields.len()
        invariant
            i <= fields.len(),
            ind.wf(),
            parts == named_texts(named_exprs_view(fields@), ind.lvl()),
            r@ == join(parts.take(i as int), ", "@),
        decreases fields.len() - i,
    {
        proof { lemma_join_push(parts, ", "@, i as int); }
        if i > 0 {
            push_str(&mut r, ", ");
        }
        let mut p = string_of(fields[i].0.as_str());
        push_str(&mut p, ": ");
        append(&mut p, &gen_expr(&fields[i].1, ind));
        append(&mut r, &p);
        i += 1;
    }
    assert(parts.take(fields.len() as int) == parts);
    r
}

fn gen_let(expr: &Expr, ind: &Indent) -> (r: String)
    requires
        ind.wf(),
        expr is Let,
    ensures
        r@ == expr_text(expr@, ind.lvl()),
    decreases expr, 0int,
{
    match expr {
        Expr::Let { bindings, body } => {
            let inner = ind.deeper();
            let mut r = string_of("{\n");
            append(&mut r, &gen_bindings(bindings, &inner));
            append(&mut r, &gen_body(body, &inner));
            append(&mut r, &ind.text);
            push_str(&mut r, "}");
            r
        },
        _ => empty_string(),
    }
}

fn gen_bindings(bindings: &Vec<LetBinding>, ind: &Indent) -> (r: String)
    requires
        ind.wf(),
    ensures
        r@ == concat(binding_lines(bindings_view(bindings@), ind.lvl())),
    decreases bindings, 1int,
{
    let ghost parts = binding_lines(bindings_view(bindings@), ind.lvl());
    let mut r = empty_string();
    let mut i: usize = 0;
    while i < bindings.len()
        invariant
            i <= bindings.len(),
            ind.wf(),
            parts == binding_lines(bindings_view(bindings@), ind.lvl()),
            r@ == concat(parts.take(i as int)),
        decreases bindings.len() - i,
    {
        proof { lemma_concat_push(parts, i as int); }
        append(&mut r, &gen_binding(&bindings[i], ind));
        i += 1;
    }
    assert(parts.take(bindings.len() as int) == parts);
    r
}

fn gen_binding(b: &LetBinding, ind: &Indent) -> (r: String)
    requires
        ind.wf(),
    ensures
        r@ == binding_line(binding_view(b), ind.lvl()),
    decreases b, 0int,
{
    let mut r = ind.start();
    push_str(&mut r, "let ");
    if b.mutable {
        push_str(&mut r, "mut ");
    }
    append(&mut r, &b.name);
    append(&mut r, &gen_ann(&b.type_ann));
    push_str(&mut r, " = ");
    append(&mut r, &gen_expr(&b.value, ind));
    push_str(&mut r, ";\n");
    r
}

/// `: T` for a type annotation.
fn gen_ann(ty: &Option<String>) -> (r: String)
    ensures
        r@ == ann_text(opt_str_view(*ty)),
{
    match ty {
        Some(t) => {
            let mut r = string_of(": ");
            append(&mut r, t);
            r
        },
        None => empty_string(),
    }
}

/// ` -> T` for a return type.
fn gen_ret(ty: &Option<String>) -> (r: String)
    ensures
        r@ == ret_text(opt_str_view(*ty)),
{
    match ty {
        Some(t) => {
            let mut r = string_of(" -> ");
            append(&mut r, t);
            r
        },
        None => empty_string(),
    }
}

fn gen_if(expr: &Expr, ind: &Indent) -> (r: String)
    requires
        ind.wf(),
        expr is If,
    ensures
        r@ == expr_text(expr@, ind.lvl()),
    decreases expr, 0int,
{
    match expr {
        Expr::If { cond, then, else_ } => {
            let inner = ind.deeper();
            let mut r = string_of("if ");
            append(&mut r, &gen_expr(cond, ind));
            push_str(&mut r, " {\n");
            append(&mut r, &inner.text);
            append(&mut r, &gen_expr(then, &inner));
            push_str(&mut r, "\n");
            append(&mut r, &ind.text);
            push_str(&mut r, "}");
            let mut tail = empty_string();
            if let Some(e) = else_ {
                tail = string_of(" else {\n");
                append(&mut tail, &inner.text);
                append(&mut tail, &gen_expr(e, &inner));
                push_str(&mut tail, "\n");
                append(&mut tail, &ind.text);
                push_str(&mut tail, "}");
            }
            append(&mut r, &tail);
            r
        },
        _ => empty_string(),
    }
}

fn gen_match(expr: &Expr, ind: &Indent) -> (r: String)
    requires
        ind.wf(),
        expr is Match,
    ensures
        r@ == expr_text(expr@, ind.lvl()),
    decreases expr, 0int,
{
    match expr {
        Expr::Match { expr: scrutinee, arms } => {
            let mut r = string_of("match ");
            append(&mut r, &gen_expr(scrutinee, ind));
            push_str(&mut r, " {\n");
            append(&mut r, &gen_arms(arms, &ind.deeper()));
            append(&mut r, &ind.text);
            push_str(&mut r, "}");
            r
        },
        _ => empty_string(),
    }
}

fn gen_arms(arms: &Vec<MatchArm>, ind: &Indent) -> (r: String)
    requires
        ind.wf(),
    ensures
        r@ == concat(arm_texts(arms_view(arms@), ind.lvl())),
    decreases arms, 1int,
{
    let ghost parts = arm_texts(arms_view(arms@), ind.lvl());
    let mut r = empty_string();
    let mut i: usize = 0;
    while i < arms.len()
        invariant
            i <= arms.len(),
            ind.wf(),
            parts == arm_texts(arms_view(arms@), ind.lvl()),
            r@ == concat(parts.take(i as int)),
        decreases arms.len() - i,
    {
        proof { lemma_concat_push(parts, i as int); }
        append(&mut r, &gen_arm(&arms[i], ind));
        i += 1;
    }
    assert(parts.take(arms.len() as int) == parts);
    r
}

fn gen_arm(arm: &MatchArm, ind: &Indent) -> (r: String)
    requires
        ind.wf(),
    ensures
        r@ == arm_text(arm_view(arm), ind.lvl()),
    decreases arm, 0int,
{
    let mut r = ind.start();
    append(&mut r, &gen_pattern(&arm.pattern, ind));
    let mut guard = empty_string();
    if let Some(g) = &arm.guard {
        guard = string_of(" if ");
        append(&mut guard, &gen_expr(g, ind));
    }
    append(&mut r, &guard);
    push_str(&mut r, " => ");
    let body = match &arm.body {
        Expr::Do(stmts) => gen_braced_body(stmts, ind),
        other => gen_expr(other, ind),
    };
    append(&mut r, &body);
    push_str(&mut r, ",\n");
    r
}

fn gen_fn_expr(expr: &Expr, ind: &Indent) -> (r: String)
    requires
        ind.wf(),
        expr is Fn,
    ensures
        r@ == expr_text(expr@, ind.lvl()),
    decreases expr, 0int,
{
    match expr {
        Expr::Fn { params, ret_type, body } => {
            let mut r = string_of("|");
            append(&mut r, &gen_closure_params(params));
            push_str(&mut r, "|");
            append(&mut r, &gen_ret(ret_type));
            let tail = if body.len() == 1 {
                let mut t = string_of(" ");
                append(&mut t, &gen_expr(&body[0], ind));
                t
            } else {
                let mut t = string_of(" {\n");
                append(&mut t, &gen_body(body, &ind.deeper()));
                append(&mut t, &ind.text);
                push_str(&mut t, "}");
                t
            };
            assert(tail@ == (if exprs_view(body@).len() == 1 {
                " "@ + expr_text(exprs_view(body@)[0], ind.lvl())
            } else {
                " {\n"@ + body_text(exprs_view(body@), ind.lvl() + 1) + ws(ind.lvl()) + "}"@
            }));
            append(&mut r, &tail);
            r
        },
        _ => empty_string(),
    }
}

fn gen_closure_params(ps: &Vec<Param>) -> (r: String)
    ensures
        r@ == join(closure_param_texts(params_view(ps@)), ", "@),
{
    let ghost parts = closure_param_texts(params_view(ps@));
    let mut r = empty_string();
    let mut i: usize = 0;
    while i < ps.len()
        invariant
            i <= ps.len(),
            parts == closure_param_texts(params_view(ps@)),
            r@ == join(parts.take(i as int), ", "@),
        decreases ps.len() - i,
    {
        proof { lemma_join_push(parts, ", "@, i as int); }
        if i > 0 {
            push_str(&mut r, ", ");
        }
        let p = &ps[i];
        let mut t = empty_string();
        if p.is_mut {
            push_str(&mut t, "mut ");
        }
        append(&mut t, &p.name);
        append(&mut t, &gen_ann(&p.type_ann));
        append(&mut r, &t);
        i += 1;
    }
    assert(parts.take(ps.len() as int) == parts);
    r
}

// ── Bodies and statements ───────────────────────────────────────────────

fn gen_body(body: &Vec<Expr>, ind: &Indent) -> (r: String)
    requires
        ind.wf(),
    ensures
        r@ == body_text(exprs_view(body@), ind.lvl()),
    decreases body, 0int,
{
    let ghost parts = body_parts(exprs_view(body@), ind.lvl());
    let mut r = empty_string();
    let mut i: usize = 0;
    while i < body.len()
        invariant
            i <= body.len(),
            ind.wf(),
            parts == body_parts(exprs_view(body@), ind.lvl()),
            r@ == concat(parts.take(i as int)),
        decreases body.len() - i,
    {
        proof { lemma_concat_push(parts, i as int); }
        if i == body.len() - 1 {
            let mut t = ind.start();
            append(&mut t, &gen_expr(&body[i], ind));
            push_str(&mut t, "\n");
            append(&mut r, &t);
        } else {
            append(&mut r, &gen_statement(&body[i], ind));
        }
        i += 1;
    }
    assert(parts.take(body.len() as int) == parts);
    r
}

fn gen_statement(expr: &Expr, ind: &Indent) -> (r: String)
    requires
        ind.wf(),
    ensures
        r@ == stmt_text(expr@, ind.lvl()),
    decreases expr, 2int,
{
    let standalone = match expr {
        Expr::Let { .. } => true,
        Expr::For { .. } => true,
        Expr::While { .. } => true,
        Expr::Loop { .. } => true,
        Expr::If { else_: None, .. } => true,
        _ => false,
    };
    let mut r = ind.start();
    append(&mut r, &gen_expr(expr, ind));
    if standalone {
        push_str(&mut r, "\n");
    } else {
        push_str(&mut r, ";\n");
    }
    r
}

// ── loop / recur ────────────────────────────────────────────────────────

fn gen_loop(expr: &Expr, ind: &Indent) -> (r: String)
    requires
        ind.wf(),
        expr is Loop,
    ensures
        r@ == expr_text(expr@, ind.lvl()),
    decreases expr, 0int,
{
    match expr {
        Expr::Loop { bindings, body } => {
            if bindings.len() > 0 {
                let inner = ind.deeper();
                let innermost = inner.deeper();
                let (lets, names) = gen_loop_lets(bindings, &inner);
                let mut r = string_of("{\n");
                append(&mut r, &lets);
                append(&mut r, &inner.text);
                push_str(&mut r, "loop {");
                push_str(&mut r, "\n");
                append(&mut r, &gen_loop_body(body, &names, &innermost));
                append(&mut r, &inner.text);
                push_str(&mut r, "}");
                push_str(&mut r, "\n");
                append(&mut r, &ind.text);
                push_str(&mut r, "}");
                assert(expr@ == crate::ast::SpecExpr::Loop { bindings: bindings_view(bindings@), body: exprs_view(body@) });
                assert(r@ == expr_text(expr@, ind.lvl()));
                r
            } else {
                let mut r = string_of("loop {\n");
                append(&mut r, &gen_body(body, &ind.deeper()));
                append(&mut r, &ind.text);
                push_str(&mut r, "}");
                r
            }
        },
        _ => empty_string(),
    }
}

/// `let mut name = value;` for each loop variable, and the variables' names.
fn gen_loop_lets(bindings: &Vec<LetBinding>, ind: &Indent) -> (r: (String, Vec<String>))
    requires
        ind.wf(),
    ensures
        r.0@ == concat(loop_lets(bindings_view(bindings@), ind.lvl())),
        strs_view(r.1@) == binding_names(bindings_view(bindings@)),
    decreases bindings, 1int,
{
    let ghost bs = bindings_view(bindings@);
    let ghost parts = loop_lets(bs, ind.lvl());
    let mut r = empty_string();
    let mut names: Vec<String> = Vec::new();
    let mut i: usize = 0;
    while i < bindings.len()
        invariant
            i <= bindings.len(),
            ind.wf(),
            bs == bindings_view(bindings@),
            parts == loop_lets(bs, ind.lvl()),
            r@ == concat(parts.take(i as int)),
            names@.len() == i,
            forall|j: int| 0 <= j < i ==> #[trigger] names@[j]@ == bs[j].name,
        decreases bindings.len() - i,
    {
        proof { lemma_concat_push(parts, i as int); }
        let b = &bindings[i];
        names.push(string_of(b.name.as_str()));
        let mut t = ind.start();
        push_str(&mut t, "let mut ");
        append(&mut t, &b.name);
        push_str(&mut t, " = ");
        append(&mut t, &gen_expr(&b.value, ind));
        push_str(&mut t, ";\n");
        append(&mut r, &t);
        i += 1;
    }
    assert(parts.take(bindings.len() as int) == parts);
    assert(strs_view(names@) =~= binding_names(bs));
    (r, names)
}

fn gen_loop_body(body: &Vec<Expr>, loop_vars: &Vec<String>, ind: &Indent) -> (r: String)
    requires
        ind.wf(),
    ensures
        r@ == concat(loop_parts(exprs_view(body@), strs_view(loop_vars@), ind.lvl())),
    decreases body, 1int,
{
    let ghost parts = loop_parts(exprs_view(body@), strs_view(loop_vars@), ind.lvl());
    let mut r = empty_string();
    let mut i: usize = 0;
    while i < body.len()
        invariant
            i <= body.len(),
            ind.wf(),
            parts == loop_parts(exprs_view(body@), strs_view(loop_vars@), ind.lvl()),
            r@ == concat(parts.take(i as int)),
        decreases body.len() - i,
    {
        proof { lemma_concat_push(parts, i as int); }
        let is_last = i == body.len() - 1;
        append(&mut r, &gen_loop_expr(&body[i], loop_vars, is_last, ind));
        i += 1;
    }
    assert(parts.take(body.len() as int) == parts);
    r
}

fn gen_loop_expr(expr: &Expr, loop_vars: &Vec<String>, is_tail: bool, ind: &Indent) -> (r: String)
    requires
        ind.wf(),
    ensures
        r@ == loop_expr_text(expr@, strs_view(loop_vars@), is_tail, ind.lvl()),
    decreases expr, 3int,
{
    if is_tail {
        match expr {
            Expr::Recur(args) => gen_recur(args, loop_vars, ind),
            Expr::If { cond, then, else_ } => {
                let inner = ind.deeper();
                let mut r = ind.start();
                push_str(&mut r, "if ");
                append(&mut r, &gen_expr(cond, ind));
                push_str(&mut r, " {\n");
                append(&mut r, &gen_loop_expr(then, loop_vars, true, &inner));
                append(&mut r, &ind.text);
                push_str(&mut r, "}");
                let mut tail = empty_string();
                if let Some(e) = else_ {
                    tail = string_of(" else {\n");
                    append(&mut tail, &gen_loop_expr(e, loop_vars, true, &inner));
                    append(&mut tail, &ind.text);
                    push_str(&mut tail, "}");
                }
                append(&mut r, &tail);
                push_str(&mut r, "\n");
                r
            },
            _ => {
                let mut r = ind.start();
                push_str(&mut r, "break ");
                append(&mut r, &gen_expr(expr, ind));
                push_str(&mut r, ";\n");
                r
            },
        }
    } else {
        gen_statement(expr, ind)
    }
}

/// `recur` in tail position: each argument goes to a temporary, each loop
/// variable takes its temporary, and the loop continues.
fn gen_recur(args: &Vec<Expr>, loop_vars: &Vec<String>, ind: &Indent) -> (r: String)
    requires
        ind.wf(),
    ensures
        r@ == recur_text(exprs_view(args@), strs_view(loop_vars@), ind.lvl()),
    decreases args, 0int,
{
    let ghost es = exprs_view(args@);
    let ghost vars = strs_view(loop_vars@);
    let n: usize = if loop_vars.len() < args.len() { loop_vars.len() } else { args.len() };
    let ghost lets = recur_lets(es, n as nat, ind.lvl());
    let ghost sets = recur_sets(vars, ind.lvl());
    let mut a = empty_string();
    let mut i: usize = 0;
    while i < n
        invariant
            i <= n,
            n <= args.len(),
            ind.wf(),
            es == exprs_view(args@),
            lets == recur_lets(es, n as nat, ind.lvl()),
            a@ == concat(lets.take(i as int)),
        decreases n - i,
    {
        proof { lemma_concat_push(lets, i as int); }
        let mut t = ind.start();
        push_str(&mut t, "let __recur_");
        append(&mut t, &usize_to_string(i));
        push_str(&mut t, " = ");
        append(&mut t, &gen_expr(&args[i], ind));
        push_str(&mut t, ";\n");
        append(&mut a, &t);
        i += 1;
    }
    assert(lets.take(n as int) == lets);
    let mut b = empty_string();
    let mut j: usize = 0;
    while j < loop_vars.len()
        invariant
            j <= loop_vars.len(),
            ind.wf(),
            vars == strs_view(loop_vars@),
            sets == recur_sets(vars, ind.lvl()),
            b@ == concat(sets.take(j as int)),
        decreases loop_vars.len() - j,
    {
        proof { lemma_concat_push(sets, j as int); }
        let mut t = ind.start();
        append(&mut t, &loop_vars[j]);
        push_str(&mut t, " = __recur_");
        append(&mut t, &usize_to_string(j));
        push_str(&mut t, ";\n");
        append(&mut b, &t);
        j += 1;
    }
    assert(sets.take(loop_vars.len() as int) == sets);
    let mut r = a;
    append(&mut r, &b);
    append(&mut r, &ind.text);
    push_str(&mut r, "continue;");
    push_str(&mut r, "\n");
    r
}

// ── Patterns ────────────────────────────────────────────────────────────

fn gen_pattern(pat: &Pattern, ind: &Indent) -> (r: String)
    requires
        ind.wf(),
    ensures
        r@ == pattern_text(pat@, ind.lvl()),
    decreases pat, 1int,
{
    match pat {
        Pattern::Wildcard => string_of("_"),
        Pattern::Literal(e) => gen_expr(e, ind),
        Pattern::Binding(name) => string_of(name.as_str()),
        Pattern::Tuple(pats) => {
            let mut r = string_of("(");
            append(&mut r, &gen_patterns(pats, ", ", ind));
            push_str(&mut r, ")");
            r
        },
        Pattern::Struct { name, fields } => {
            let mut r = string_of(name.as_str());
            push_str(&mut r, " { ");
            append(&mut r, &gen_named_patterns(fields, ind));
            push_str(&mut r, " }");
            r
        },
        Pattern::TupleStruct { name, fields } => {
            let mut r = string_of(name.as_str());
            push_str(&mut r, "(");
            append(&mut r, &gen_patterns(fields, ", ", ind));
            push_str(&mut r, ")");
            r
        },
        Pattern::Ref(inner) => {
            let mut r = string_of("&");
            append(&mut r, &gen_pattern(inner, ind));
            r
        },
        Pattern::Or(pats) => gen_patterns(pats, " | ", ind),
    }
}

fn gen_patterns(pats: &Vec<Pattern>, sep: &str, ind: &Indent) -> (r: String)
    requires
        ind.wf(),
    ensures
        r@ == join(pattern_texts(patterns_view(pats@), ind.lvl()), sep@),
    decreases pats, 0int,
{
    let ghost parts = pattern_texts(patterns_view(pats@), ind.lvl());
    let mut r = empty_string();
    let mut i: usize = 0;
    while i < pats.len()
        invariant
            i <= pats.len(),
            ind.wf(),
            parts == pattern_texts(patterns_view(pats@), ind.lvl()),
            r@ == join(parts.take(i as int), sep@),
        decreases pats.len() - i,
    {
        proof { lemma_join_push(parts, sep@, i as int); }
        if i > 0 {
            push_str(&mut r, sep);
        }
        append(&mut r, &gen_pattern(&pats[i], ind));
        i += 1;
    }
    assert(parts.take(pats.len() as int) == parts);
    r
}

fn gen_named_patterns(fields: &Vec<(String, Pattern)>, ind: &Indent) -> (r: String)
    requires
        ind.wf(),
    ensures
        r@ == join(named_pattern_texts(named_patterns_view(fields@), ind.lvl()), ", "@),
    decreases fields, 0int,
{
    let ghost parts = named_pattern_texts(named_patterns_view(fields@), ind.lvl());
    let mut r = empty_string();
    let mut i: usize = 0;
    while i < fields.len()
        invariant
            i <= fields.len(),
            ind.wf(),
            parts == named_pattern_texts(named_patterns_view(fields@), ind.lvl()),
            r@ == join(parts.take(i as int), ", "@),
        decreases fields.len() - i,
    {
        proof { lemma_join_push(parts, ", "@, i as int); }
        if i > 0 {
            push_str(&mut r, ", ");
        }
        let mut t = string_of(fields[i].0.as_str());
        push_str(&mut t, ": ");
        append(&mut t, &gen_pattern(&fields[i].1, ind));
        append(&mut r, &t);
        i += 1;
    }
    assert(parts.take(fields.len() as int) == parts);
    r
}

// ── Literals ────────────────────────────────────────────────────────────

/// The body of a Rust string literal holding `s`.
fn escape_str(s: &String) -> (r: String)
    ensures
        r@ == esc_str(s@),
{
    let cs = chars_of_string(s);
    let ghost parts = esc_parts(s@);
    let mut r = empty_string();
    let mut i: usize = 0;
    while i < cs.len()
        invariant
            i <= cs.len(),
            cs@ == s@,
            parts == esc_parts(s@),
            r@ == concat(parts.take(i as int)),
        decreases cs.len() - i,
    {
        proof { lemma_concat_push(parts, i as int); }
        let c = cs[i];
        if c == '\\' {
            push_str(&mut r, "\\\\");
        } else if c == '"' {
            push_str(&mut r, "\\\"");
        } else if c == '\n' {
            push_str(&mut r, "\\n");
        } else if c == '\r' {
            push_str(&mut r, "\\r");
        } else if c == '\t' {
            push_str(&mut r, "\\t");
        } else {
            push_char(&mut r, c);
        }
        i += 1;
    }
    assert(parts.take(cs.len() as int) == parts);
    r
}

/// The body of a Rust character literal holding `c`.
fn escape_char(c: char) -> (r: String)
    ensures
        r@ == esc_char(c),
{
    if c == '\n' {
        string_of("\\n")
    } else if c == '\r' {
        string_of("\\r")
    } else if c == '\t' {
        string_of("\\t")
    } else if c == '\\' {
        string_of("\\\\")
    } else if c == '\'' {
        string_of("\\'")
    } else {
        let mut r = empty_string();
        push_char(&mut r, c);
        r
    }
}

// ── Items ───────────────────────────────────────────────────────────────

/// The generator: the text of each program it is given is added to what it
/// has written so far.
pub struct CodeGen {
    output: String,
}

impl CodeGen {
    /// The text written so far.
    pub closed spec fn out(&self) -> Seq<char> {
        self.output@
    }

    /// A generator that has written nothing.
    pub fn new() -> (r: Self)
        ensures
            r.out() == Seq::<char>::empty(),
    {
        CodeGen { output: empty_string() }
    }

    /// Writes each item of the program, each followed by an empty line's
    /// break, and returns everything written so far.
    pub fn generate(&mut self, program: &Program) -> (r: String)
        ensures
            final(self).out() == old(self).out() + program_text(program@),
            r@ == final(self).out(),
    {
        let text = gen_items(&program.items, &Indent::top());
        append(&mut self.output, &text);
        self.output.clone()
    }
}

/// Each item followed by a line break.
fn gen_items(items: &Vec<TopLevel>, ind: &Indent) -> (r: String)
    requires
        ind.wf(),
    ensures
        r@ == concat(top_lines(toplevels_view(items@), ind.lvl())),
    decreases items, 0int,
{
    let ghost parts = top_lines(toplevels_view(items@), ind.lvl());
    let mut r = empty_string();
    let mut i: usize = 0;
    while i < items.len()
        invariant
            i <= items.len(),
            ind.wf(),
            parts == top_lines(toplevels_view(items@), ind.lvl()),
            r@ == concat(parts.take(i as int)),
        decreases items.len() - i,
    {
        proof { lemma_concat_push(parts, i as int); }
        let mut t = gen_top_level(&items[i], ind);
        push_str(&mut t, "\n");
        append(&mut r, &t);
        i += 1;
    }
    assert(parts.take(items.len() as int) == parts);
    r
}

pub(crate) fn gen_top_level(item: &TopLevel, ind: &Indent) -> (r: String)
    requires
        ind.wf(),
    ensures
        r@ == top_text(item@, ind.lvl()),
    decreases item, 1int,
{
    match item {
        TopLevel::Use(u) => {
            let mut r = ind.start();
            push_str(&mut r, "use ");
            append(&mut r, &u.path);
            push_str(&mut r, ";");
            push_str(&mut r, "\n");
            r
        },
        TopLevel::ExternCrate(name) => {
            let mut r = ind.start();
            push_str(&mut r, "extern crate ");
            append(&mut r, name);
            push_str(&mut r, ";");
            push_str(&mut r, "\n");
            r
        },
        TopLevel::Def(d) => gen_def(d, ind),
        TopLevel::Defn(f) => gen_defn(f, ind),
        TopLevel::DefStruct(s) => gen_struct(s, ind),
        TopLevel::DefEnum(e) => gen_enum(e, ind),
        TopLevel::DefTrait(t) => gen_trait(t, ind),
        TopLevel::Impl(i) => gen_impl(i, ind),
        TopLevel::Mod(m) => gen_mod(m, ind),
        TopLevel::Attr(attr, inner) => {
            let mut r = ind.start();
            push_str(&mut r, "#[");
            append(&mut r, attr);
            push_str(&mut r, "]");
            push_str(&mut r, "\n");
            append(&mut r, &gen_top_level(inner, ind));
            r
        },
        TopLevel::Expr(e) => {
            let mut r = ind.start();
            append(&mut r, &gen_expr(e, ind));
            push_str(&mut r, ";\n");
            r
        },
    }
}

/// A top-level `def`, `def-mut` or `const`, its name upper-cased.
fn gen_def(d: &Def, ind: &Indent) -> (r: String)
    requires
        ind.wf(),
    ensures
        r@ == def_text(d.is_pub, d.mutable, d.is_const, d.name@, opt_str_view(d.type_ann), d.value@, ind.lvl()),
{
    let mut r = ind.start();
    if d.is_pub {
        push_str(&mut r, "pub ");
    }
    if d.is_const {
        push_str(&mut r, "const ");
    } else if d.mutable {
        push_str(&mut r, "static mut ");
    } else {
        push_str(&mut r, "static ");
    }
    append(&mut r, &str_to_uppercase(d.name.as_str()));
    append(&mut r, &gen_ann(&d.type_ann));
    push_str(&mut r, " = ");
    append(&mut r, &gen_expr(&d.value, ind));
    push_str(&mut r, ";\n");
    r
}

/// `<A, B>` for generic parameters.
fn gen_generics(g: &Vec<String>) -> (r: String)
    ensures
        r@ == generics_text(strs_view(g@)),
{
    if g.len() > 0 {
        let mut r = string_of("<");
        let j = join_strings(g, ", ");
        assert(j@ == join(strs_view(g@), ", "@));
        append(&mut r, &j);
        push_str(&mut r, ">");
        r
    } else {
        empty_string()
    }
}

fn gen_params(ps: &Vec<Param>) -> (r: String)
    ensures
        r@ == params_text(params_view(ps@)),
{
    let ghost parts = param_texts(params_view(ps@));
    let mut r = empty_string();
    let mut i: usize = 0;
    while i < ps.len()
        invariant
            i <= ps.len(),
            parts == param_texts(params_view(ps@)),
            r@ == join(parts.take(i as int), ", "@),
        decreases ps.len() - i,
    {
        proof { lemma_join_push(parts, ", "@, i as int); }
        if i > 0 {
            push_str(&mut r, ", ");
        }
        append(&mut r, &gen_param(&ps[i]));
        i += 1;
    }
    assert(parts.take(ps.len() as int) == parts);
    r
}

/// A function parameter; any reference parameter is a `self` receiver.
fn gen_param(p: &Param) -> (r: String)
    ensures
        r@ == param_text(param_view(*p)),
{
    if p.is_ref {
        return string_of("&self");
    }
    if p.is_mut_ref {
        return string_of("&mut self");
    }
    if str_eq(p.name.as_str(), "self") {
        if p.is_mut {
            return string_of("mut self");
        } else {
            return string_of("self");
        }
    }
    let mut r = empty_string();
    if p.is_mut {
        push_str(&mut r, "mut ");
    }
    append(&mut r, &p.name);
    append(&mut r, &gen_ann(&p.type_ann));
    r
}

fn gen_defn(f: &Defn, ind: &Indent) -> (r: String)
    requires
        ind.wf(),
    ensures
        r@ == defn_text(defn_view(f), ind.lvl()),
{
    let mut r = ind.start();
    if f.is_pub {
        push_str(&mut r, "pub ");
    }
    if f.is_async {
        push_str(&mut r, "async ");
    }
    push_str(&mut r, "fn ");
    append(&mut r, &f.name);
    append(&mut r, &gen_generics(&f.generics));
    push_str(&mut r, "(");
    append(&mut r, &gen_params(&f.params));
    push_str(&mut r, ")");
    append(&mut r, &gen_ret(&f.ret_type));
    push_str(&mut r, " {\n");
    append(&mut r, &gen_body(&f.body, &ind.deeper()));
    append(&mut r, &ind.text);
    push_str(&mut r, "}");
    push_str(&mut r, "\n");
    r
}

/// `#[derive(..)]` on a line of its own, when anything is derived.
fn gen_derives(derives: &Vec<String>, ind: &Indent) -> (r: String)
    requires
        ind.wf(),
    ensures
        r@ == derive_line(strs_view(derives@), ind.lvl()),
{
    if derives.len() > 0 {
        let mut r = ind.start();
        push_str(&mut r, "#[derive(");
        let j = join_strings(derives, ", ");
        assert(j@ == join(strs_view(derives@), ", "@));
        append(&mut r, &j);
        push_str(&mut r, ")]");
        push_str(&mut r, "\n");
        r
    } else {
        empty_string()
    }
}

fn gen_struct(s: &DefStruct, ind: &Indent) -> (r: String)
    requires
        ind.wf(),
    ensures
        r@ == struct_text(
            SpecDefStruct {
                is_pub: s.is_pub,
                name: s.name@,
                generics: strs_view(s.generics@),
                fields: fields_view(s.fields@),
                derives: strs_view(s.derives@),
            },
            ind.lvl(),
        ),
{
    let inner = ind.deeper();
    let ghost parts = struct_field_lines(fields_view(s.fields@), inner.lvl());
    let mut lines = empty_string();
    let mut i: usize = 0;
    while i < s.fields.len()
        invariant
            i <= s.fields.len(),
            inner.wf(),
            parts == struct_field_lines(fields_view(s.fields@), inner.lvl()),
            lines@ == concat(parts.take(i as int)),
        decreases s.fields.len() - i,
    {
        proof { lemma_concat_push(parts, i as int); }
        let field = &s.fields[i];
        let mut t = inner.start();
        if field.is_pub {
            push_str(&mut t, "pub ");
        }
        append(&mut t, &field.name);
        push_str(&mut t, ": ");
        append(&mut t, &field.type_ann);
        push_str(&mut t, ",\n");
        append(&mut lines, &t);
        i += 1;
    }
    assert(parts.take(s.fields.len() as int) == parts);
    let mut r = gen_derives(&s.derives, ind);
    append(&mut r, &ind.text);
    if s.is_pub {
        push_str(&mut r, "pub ");
    }
    push_str(&mut r, "struct ");
    append(&mut r, &s.name);
    append(&mut r, &gen_generics(&s.generics));
    push_str(&mut r, " {\n");
    append(&mut r, &lines);
    append(&mut r, &ind.text);
    push_str(&mut r, "}");
    push_str(&mut r, "\n");
    r
}

fn gen_enum(e: &DefEnum, ind: &Indent) -> (r: String)
    requires
        ind.wf(),
    ensures
        r@ == enum_text(
            SpecDefEnum {
                is_pub: e.is_pub,
                name: e.name@,
                generics: strs_view(e.generics@),
                variants: variants_view(e.variants@),
                derives: strs_view(e.derives@),
            },
            ind.lvl(),
        ),
{
    let inner = ind.deeper();
    let ghost parts = variant_lines(variants_view(e.variants@), inner.lvl());
    let mut lines = empty_string();
    let mut i: usize = 0;
    while i < e.variants.len()
        invariant
            i <= e.variants.len(),
            inner.wf(),
            parts == variant_lines(variants_view(e.variants@), inner.lvl()),
            lines@ == concat(parts.take(i as int)),
        decreases e.variants.len() - i,
    {
        proof { lemma_concat_push(parts, i as int); }
        append(&mut lines, &gen_variant(&e.variants[i], &inner));
        i += 1;
    }
    assert(parts.take(e.variants.len() as int) == parts);
    let mut r = gen_derives(&e.derives, ind);
    append(&mut r, &ind.text);
    if e.is_pub {
        push_str(&mut r, "pub ");
    }
    push_str(&mut r, "enum ");
    append(&mut r, &e.name);
    append(&mut r, &gen_generics(&e.generics));
    push_str(&mut r, " {\n");
    append(&mut r, &lines);
    append(&mut r, &ind.text);
    push_str(&mut r, "}");
    push_str(&mut r, "\n");
    r
}

fn gen_variant(v: &crate::ast::EnumVariant, ind: &Indent) -> (r: String)
    requires
        ind.wf(),
    ensures
        r@ == variant_line(crate::ast::variant_view(v), ind.lvl()),
{
    let mut r = ind.start();
    append(&mut r, &v.name);
    let fields = match &v.fields {
        VariantFields::Unit => empty_string(),
        VariantFields::Tuple(types) => {
            let mut t = string_of("(");
            let j = join_strings(types, ", ");
            assert(j@ == join(strs_view(types@), ", "@));
            append(&mut t, &j);
            push_str(&mut t, ")");
            t
        },
        VariantFields::Struct(fields) => {
            let mut t = string_of(" { ");
            append(&mut t, &gen_field_decls(fields));
            push_str(&mut t, " }");
            t
        },
    };
    append(&mut r, &fields);
    push_str(&mut r, ",\n");
    r
}

/// `name: Type` for each field of a struct-like variant.
fn gen_field_decls(fields: &Vec<StructField>) -> (r: String)
    ensures
        r@ == join(field_decls(fields_view(fields@)), ", "@),
{
    let ghost parts = field_decls(fields_view(fields@));
    let mut r = empty_string();
    let mut i: usize = 0;
    while i < fields.len()
        invariant
            i <= fields.len(),
            parts == field_decls(fields_view(fields@)),
            r@ == join(parts.take(i as int), ", "@),
        decreases fields.len() - i,
    {
        proof { lemma_join_push(parts, ", "@, i as int); }
        if i > 0 {
            push_str(&mut r, ", ");
        }
        let mut t = string_of(fields[i].name.as_str());
        push_str(&mut t, ": ");
        append(&mut t, &fields[i].type_ann);
        append(&mut r, &t);
        i += 1;
    }
    assert(parts.take(fields.len() as int) == parts);
    r
}

fn gen_trait(t: &DefTrait, ind: &Indent) -> (r: String)
    requires
        ind.wf(),
    ensures
        r@ == trait_text(
            SpecDefTrait {
                is_pub: t.is_pub,
                name: t.name@,
                generics: strs_view(t.generics@),
                methods: defns_view(t.methods@),
            },
            ind.lvl(),
        ),
{
    let inner = ind.deeper();
    let ghost parts = trait_method_lines(defns_view(t.methods@), inner.lvl());
    let mut lines = empty_string();
    let mut i: usize = 0;
    while i < t.methods.len()
        invariant
            i <= t.methods.len(),
            inner.wf(),
            parts == trait_method_lines(defns_view(t.methods@), inner.lvl()),
            lines@ == concat(parts.take(i as int)),
        decreases t.methods.len() - i,
    {
        proof { lemma_concat_push(parts, i as int); }
        let m = &t.methods[i];
        if m.body.len() == 0 {
            let mut s = inner.start();
            push_str(&mut s, "fn ");
            append(&mut s, &m.name);
            push_str(&mut s, "(");
            append(&mut s, &gen_params(&m.params));
            push_str(&mut s, ")");
            append(&mut s, &gen_ret(&m.ret_type));
            push_str(&mut s, ";\n");
            append(&mut lines, &s);
        } else {
            append(&mut lines, &gen_defn(m, &inner));
        }
        i += 1;
    }
    assert(parts.take(t.methods.len() as int) == parts);
    let mut r = ind.start();
    if t.is_pub {
        push_str(&mut r, "pub ");
    }
    push_str(&mut r, "trait ");
    append(&mut r, &t.name);
    append(&mut r, &gen_generics(&t.generics));
    push_str(&mut r, " {\n");
    append(&mut r, &lines);
    append(&mut r, &ind.text);
    push_str(&mut r, "}");
    push_str(&mut r, "\n");
    r
}

fn gen_impl(b: &Impl, ind: &Indent) -> (r: String)
    requires
        ind.wf(),
    ensures
        r@ == impl_text(
            SpecImplBlock {
                typ_name: b.typ_name@,
                generics: strs_view(b.generics@),
                trait_name: opt_str_view(b.trait_name),
                methods: defns_view(b.methods@),
            },
            ind.lvl(),
        ),
{
    let inner = ind.deeper();
    let ghost parts = impl_method_lines(defns_view(b.methods@), inner.lvl());
    let mut lines = empty_string();
    let mut i: usize = 0;
    while i < b.methods.len()
        invariant
            i <= b.methods.len(),
            inner.wf(),
            parts == impl_method_lines(defns_view(b.methods@), inner.lvl()),
            lines@ == concat(parts.take(i as int)),
        decreases b.methods.len() - i,
    {
        proof { lemma_concat_push(parts, i as int); }
        let mut t = gen_defn(&b.methods[i], &inner);
        push_str(&mut t, "\n");
        append(&mut lines, &t);
        i += 1;
    }
    assert(parts.take(b.methods.len() as int) == parts);
    let generics = gen_generics(&b.generics);
    let mut r = ind.start();
    push_str(&mut r, "impl");
    append(&mut r, &generics);
    push_str(&mut r, " ");
    let mut tr = empty_string();
    if let Some(t) = &b.trait_name {
        tr = string_of(t.as_str());
        push_str(&mut tr, " for ");
    }
    append(&mut r, &tr);
    append(&mut r, &b.typ_name);
    append(&mut r, &generics);
    push_str(&mut r, " {\n");
    append(&mut r, &lines);
    append(&mut r, &ind.text);
    push_str(&mut r, "}");
    push_str(&mut r, "\n");
    r
}

fn gen_mod(m: &Mod, ind: &Indent) -> (r: String)
    requires
        ind.wf(),
    ensures
        r@ == ws(ind.lvl()) + (if m.is_pub { "pub "@ } else { Seq::empty() }) + "mod "@ + m.name@ + " {\n"@
            + concat(top_lines(toplevels_view(m.items@), ind.lvl() + 1)) + ws(ind.lvl()) + "}"@ + "\n"@,
    decreases m, 0int,
{
    let mut r = ind.start();
    if m.is_pub {
        push_str(&mut r, "pub ");
    }
    push_str(&mut r, "mod ");
    append(&mut r, &m.name);
    push_str(&mut r, " {\n");
    append(&mut r, &gen_items(&m.items, &ind.deeper()));
    append(&mut r, &ind.text);
    push_str(&mut r, "}");
    push_str(&mut r, "\n");
    r
}

} // verus!
