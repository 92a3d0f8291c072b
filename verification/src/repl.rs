//! The decisions of the interactive loop: when an input is complete, how
//! definitions accumulate, and the Rust program that runs an expression.
//! Reading input, running `rustc` and printing are left to the caller.
use vstd::prelude::*;
use crate::ast::{Expr, SpecExpr, SpecTopLevel, TopLevel};
use crate::codegen::{gen_top_level as gen_item, Indent};
use crate::codegen_spec::top_text;
use crate::text::{
    chars_of, find_char, take_chars, concat, contains_seq, contains_str, empty_string, join, lemma_concat_push, lemma_join_push, lines, lines_of,
    push_str, replace_all, replace_str, starts_with, starts_with_str, str_eq, string_of, strs_of, trim,
    trim_end_char, trim_end_char_str, trim_str,
};

verus! {

// ── Colours ─────────────────────────────────────────────────────────────

/// ANSI colour escapes around text.
pub struct Color;

/// `s` between the escape `start` and the reset escape.
pub open spec fn colored(start: Seq<char>, s: Seq<char>) -> Seq<char> {
    start + s + "\x1b[0m"@
}

fn paint(start: &str, s: &str) -> (r: String)
    ensures
        r@ == colored(start@, s@),
{
    let mut r = string_of(start);
    push_str(&mut r, s);
    push_str(&mut r, "\x1b[0m");
    r
}

impl Color {
    pub fn green(s: &str) -> (r: String)
        ensures
            r@ == colored("\x1b[32m"@, s@),
    {
        paint("\x1b[32m", s)
    }

    pub fn cyan(s: &str) -> (r: String)
        ensures
            r@ == colored("\x1b[36m"@, s@),
    {
        paint("\x1b[36m", s)
    }

    pub fn yellow(s: &str) -> (r: String)
        ensures
            r@ == colored("\x1b[33m"@, s@),
    {
        paint("\x1b[33m", s)
    }

    pub fn red(s: &str) -> (r: String)
        ensures
            r@ == colored("\x1b[31m"@, s@),
    {
        paint("\x1b[31m", s)
    }

    pub fn dim(s: &str) -> (r: String)
        ensures
            r@ == colored("\x1b[2m"@, s@),
    {
        paint("\x1b[2m", s)
    }

    pub fn bold(s: &str) -> (r: String)
        ensures
            r@ == colored("\x1b[1m"@, s@),
    {
        paint("\x1b[1m", s)
    }
}

// ── Complete inputs ─────────────────────────────────────────────────────

/// What the bracket count has seen: the depth, whether inside a string,
/// whether the next character is escaped, and whether a `;` comment began.
pub struct Balance {
    pub depth: int,
    pub in_string: bool,
    pub escape: bool,
    pub stopped: bool,
}

/// One more character.
pub open spec fn balance_step(b: Balance, c: char) -> Balance {
    if b.stopped {
        b
    } else if b.escape {
        Balance { escape: false, ..b }
    } else if c == '\\' && b.in_string {
        Balance { escape: true, ..b }
    } else if c == '"' {
        Balance { in_string: !b.in_string, ..b }
    } else if b.in_string {
        b
    } else if c == '(' || c == '[' || c == '{' {
        Balance { depth: b.depth + 1, ..b }
    } else if c == ')' || c == ']' || c == '}' {
        Balance { depth: b.depth - 1, ..b }
    } else if c == ';' {
        Balance { stopped: true, ..b }
    } else {
        b
    }
}

/// The count after all of `s`.
pub open spec fn balance_of(s: Seq<char>) -> Balance
    decreases s.len(),
{
    if s.len() == 0 {
        Balance { depth: 0, in_string: false, escape: false, stopped: false }
    } else {
        balance_step(balance_of(s.drop_last()), s.last())
    }
}

/// Every opened bracket of `s` is closed (outside strings and comments).
pub open spec fn balanced(s: Seq<char>) -> bool {
    balance_of(s).depth <= 0
}

/// Whether the brackets of `input` are closed, so that it can be evaluated;
/// brackets inside strings and after a `;` do not count.
pub fn is_balanced(input: &str) -> (r: bool)
    requires
        input@.len() < i64::MAX,
    ensures
        r == balanced(input@),
{
    let cs = crate::text::chars_of(input);
    let mut depth: i64 = 0;
    let mut in_string = false;
    let mut escape = false;
    let mut stopped = false;
    let mut i: usize = 0;
    while i < cs.len() && !stopped
        invariant
            i <= cs.len(),
            cs@ == input@,
            cs.len() < i64::MAX,
            -(i as int) <= depth <= i,
            balance_of(input@.take(i as int)) == (Balance { depth: depth as int, in_string, escape, stopped }),
        decreases cs.len() - i,
    {
        let ch = cs[i];
        assert(input@.take(i + 1).drop_last() == input@.take(i as int));
        if escape {
            escape = false;
        } else if ch == '\\' && in_string {
            escape = true;
        } else if ch == '"' {
            in_string = !in_string;
        } else if in_string {
        } else if ch == '(' || ch == '[' || ch == '{' {
            depth = depth + 1;
        } else if ch == ')' || ch == ']' || ch == '}' {
            depth = depth - 1;
        } else if ch == ';' {
            stopped = true;
        }
        i += 1;
    }
    proof {
        lemma_stopped_stays_or_end(input@, i as int);
    }
    depth <= 0
}

/// The count of the whole text is the count of a prefix that covers it or
/// that ends in a comment.
proof fn lemma_stopped_stays_or_end(s: Seq<char>, k: int)
    requires
        0 <= k <= s.len(),
        k == s.len() || balance_of(s.take(k)).stopped,
    ensures
        balance_of(s) == balance_of(s.take(k)),
{
    if k == s.len() {
        assert(s.take(k) == s);
    } else {
        lemma_stopped_stays(s, k);
    }
}

/// Once a comment has begun, nothing after it changes the count.
proof fn lemma_stopped_stays(s: Seq<char>, k: int)
    requires
        0 <= k <= s.len(),
        balance_of(s.take(k)).stopped,
    ensures
        balance_of(s) == balance_of(s.take(k)),
    decreases s.len() - k,
{
    if k < s.len() {
        assert(s.take(k + 1).drop_last() == s.take(k));
        lemma_stopped_stays(s, k + 1);
    } else {
        assert(s.take(k) == s);
    }
}

/// Outside strings and comments, an opening bracket of any kind opens one
/// more level and a closing bracket of any kind closes one.
pub proof fn lemma_bracket_depth(s: Seq<char>, c: char)
    requires
        !balance_of(s).stopped,
        !balance_of(s).in_string,
        !balance_of(s).escape,
    ensures
        c == '(' || c == '[' || c == '{' ==> balance_of(s.push(c)).depth == balance_of(s).depth + 1,
        c == ')' || c == ']' || c == '}' ==> balance_of(s.push(c)).depth == balance_of(s).depth - 1,
        c == ';' ==> balance_of(s.push(c)).stopped,
        c == '"' ==> balance_of(s.push(c)).in_string,
{
    assert(s.push(c).drop_last() == s);
}

/// A closing bracket never makes a complete input incomplete.
pub proof fn lemma_close_keeps_balanced(s: Seq<char>, c: char)
    requires
        balanced(s),
        c == ')' || c == ']' || c == '}',
    ensures
        balanced(s.push(c)),
{
    assert(s.push(c).drop_last() == s);
}

/// An opening bracket never makes an incomplete input complete.
pub proof fn lemma_open_keeps_unbalanced(s: Seq<char>, c: char)
    requires
        !balanced(s),
        c == '(' || c == '[' || c == '{',
    ensures
        !balanced(s.push(c)),
{
    assert(s.push(c).drop_last() == s);
}

// ── Kinds of input ──────────────────────────────────────────────────────

/// What the loop does with a top-level form.
#[derive(Debug, Clone, Copy, PartialEq, Eq, Structural)]
pub enum InputKind {
    /// A `use` or `extern crate`: added to the imports.
    Use,
    /// A definition: added to the accumulated items.
    Definition,
    /// An expression: evaluated and its value printed.
    Expression,
}

/// The kind of a top-level form.
pub open spec fn kind_of(t: SpecTopLevel) -> InputKind {
    match t {
        SpecTopLevel::Use(_) | SpecTopLevel::ExternCrate(_) => InputKind::Use,
        SpecTopLevel::Expr(_) => InputKind::Expression,
        _ => InputKind::Definition,
    }
}

/// The kind of a top-level form.
pub fn classify(item: &TopLevel) -> (r: InputKind)
    ensures
        r == kind_of(item@),
{
    match item {
        TopLevel::Use(_) | TopLevel::ExternCrate(_) => InputKind::Use,
        TopLevel::Defn(_) | TopLevel::DefStruct(_) | TopLevel::DefEnum(_) | TopLevel::DefTrait(_)
        | TopLevel::Impl(_) | TopLevel::Def(_) | TopLevel::Mod(_) | TopLevel::Attr(_, _) => InputKind::Definition,
        TopLevel::Expr(_) => InputKind::Expression,
    }
}

/// A form run for its effect only: printing, a loop or an assignment.
pub open spec fn statement_like(t: SpecTopLevel) -> bool {
    match t {
        SpecTopLevel::Expr(e) => match e {
            SpecExpr::MacroCall { name, .. } => name == "println!"@ || name == "print!"@ || name == "eprintln!"@
                || name == "eprint!"@,
            SpecExpr::For { .. } | SpecExpr::While { .. } | SpecExpr::Assign { .. } => true,
            _ => false,
        },
        _ => false,
    }
}

/// The printing macros are run for their effect only, and no other macro
/// is: an input that only prints is just run, while one that calls any other
/// macro has its value printed.
pub proof fn lemma_printing_is_statement(name: Seq<char>, args: Seq<SpecExpr>)
    ensures
        name == "println!"@ || name == "print!"@ || name == "eprintln!"@ || name == "eprint!"@ ==> statement_like(
            SpecTopLevel::Expr(SpecExpr::MacroCall { name, args }),
        ),
        !(name == "println!"@ || name == "print!"@ || name == "eprintln!"@ || name == "eprint!"@) ==> !statement_like(
            SpecTopLevel::Expr(SpecExpr::MacroCall { name, args }),
        ),
{
}

/// Whether the form is likely run for its effect only, with no value to print.
pub fn is_statement_expr(item: &TopLevel) -> (r: bool)
    ensures
        r == statement_like(item@),
{
    match item {
        TopLevel::Expr(e) => match e {
            Expr::MacroCall { name, .. } => {
                let n = name.as_str();
                str_eq(n, "println!") || str_eq(n, "print!") || str_eq(n, "eprintln!") || str_eq(n, "eprint!")
            },
            Expr::For { .. } | Expr::While { .. } | Expr::Assign { .. } => true,
            _ => false,
        },
        _ => false,
    }
}

/// The name shown for a definition.
pub open spec fn name_of(t: SpecTopLevel) -> Seq<char>
    decreases t,
{
    match t {
        SpecTopLevel::Defn(f) => f.name,
        SpecTopLevel::Def(d) => d.name,
        SpecTopLevel::DefStruct(s) => s.name,
        SpecTopLevel::DefEnum(e) => e.name,
        SpecTopLevel::DefTrait(tr) => tr.name,
        SpecTopLevel::Impl(i) => match i.trait_name {
            Some(tn) => tn + " for "@ + i.typ_name,
            None => i.typ_name,
        },
        SpecTopLevel::Mod(m) => "mod "@ + m.name,
        SpecTopLevel::Attr(_, inner) => name_of(*inner),
        _ => "(item)"@,
    }
}

/// The name shown for a definition: its name, `Trait for Type` for a trait
/// implementation, `mod name` for a module.
pub fn def_name(item: &TopLevel) -> (r: String)
    ensures
        r@ == name_of(item@),
    decreases item,
{
    match item {
        TopLevel::Defn(f) => string_of(f.name.as_str()),
        TopLevel::Def(d) => string_of(d.name.as_str()),
        TopLevel::DefStruct(s) => string_of(s.name.as_str()),
        TopLevel::DefEnum(e) => string_of(e.name.as_str()),
        TopLevel::DefTrait(t) => string_of(t.name.as_str()),
        TopLevel::Impl(i) => {
            if let Some(t) = &i.trait_name {
                let mut r = string_of(t.as_str());
                push_str(&mut r, " for ");
                push_str(&mut r, i.typ_name.as_str());
                r
            } else {
                string_of(i.typ_name.as_str())
            }
        },
        TopLevel::Mod(m) => {
            let mut r = string_of("mod ");
            push_str(&mut r, m.name.as_str());
            r
        },
        TopLevel::Attr(_, inner) => def_name(inner),
        _ => string_of("(item)"),
    }
}

/// The Rust text of one form, as the code generator writes a program of it
/// alone.
pub fn gen_top_level(item: &TopLevel) -> (r: String)
    ensures
        r@ == top_text(item@, 0) + "\n"@,
{
    let mut r = gen_item(item, &Indent::top());
    push_str(&mut r, "\n");
    r
}

// ── Accumulated state ───────────────────────────────────────────────────

/// What the loop has accumulated: imports, definitions (as Rust text), the
/// number of evaluations, the inputs evaluated, and whether generated Rust
/// is shown.
pub struct ReplState {
    pub uses: Vec<String>,
    pub items: Vec<String>,
    pub expr_id: usize,
    pub history: Vec<String>,
    pub show_rust: bool,
}

/// The imports every program starts with.
pub open spec fn prelude_uses() -> Seq<Seq<char>> {
    seq!["use std::collections::HashMap;"@, "use std::collections::HashSet;"@]
}

/// Every program starts out importing `HashMap` and `HashSet`.
pub proof fn lemma_prelude_imports()
    ensures
        prelude_uses().contains("use std::collections::HashMap;"@),
        prelude_uses().contains("use std::collections::HashSet;"@),
{
    assert(prelude_uses()[0] == "use std::collections::HashMap;"@);
    assert(prelude_uses()[1] == "use std::collections::HashSet;"@);
}

/// Each text followed by a line break.
pub open spec fn with_breaks(ls: Seq<Seq<char>>) -> Seq<Seq<char>> {
    Seq::new(ls.len(), |i: int| ls[i] + "\n"@)
}

/// Each line indented by four spaces and followed by a line break.
pub open spec fn indented(ls: Seq<Seq<char>>) -> Seq<Seq<char>> {
    Seq::new(ls.len(), |i: int| "    "@ + ls[i] + "\n"@)
}

/// The attributes that quiet warnings in a generated program.
pub open spec fn allow_header() -> Seq<char> {
    "#![allow(unused_imports, unused_variables, unused_mut, dead_code, unused_parens)]\n\n"@
}

/// A whole program: the imports, the definitions, then `main` with `body`
/// indented inside it.
pub open spec fn program_source(uses: Seq<Seq<char>>, items: Seq<Seq<char>>, body: Seq<char>) -> Seq<char> {
    allow_header() + concat(with_breaks(uses)) + "\n"@ + concat(with_breaks(items)) + "\nfn main() {\n"@ + concat(
        indented(lines(body)),
    ) + "}\n"@
}

/// A `main` body that evaluates `e` (trimmed, without trailing `;`) and
/// prints its value with `{:?}`.
pub open spec fn print_body(e: Seq<char>) -> Seq<char> {
    "let __result = {\n    "@ + trim_end_char(trim(e), ';') + "\n};\nprintln!(\"{:?}\", __result);"@
}

/// Each text of `v` followed by a line break, one after another.
fn lines_joined(v: &Vec<String>) -> (r: String)
    ensures
        r@ == concat(with_breaks(strs_of(v@))),
{
    let ghost parts = with_breaks(strs_of(v@));
    let mut r = empty_string();
    let mut i: usize = 0;
    while i < v.len()
        invariant
            i <= v.len(),
            parts == with_breaks(strs_of(v@)),
            r@ == concat(parts.take(i as int)),
        decreases v.len() - i,
    {
        proof {
            lemma_concat_push(parts, i as int);
        }
        let mut t = string_of(v[i].as_str());
        push_str(&mut t, "\n");
        push_str(&mut r, t.as_str());
        i += 1;
    }
    assert(parts.take(v.len() as int) == parts);
    r
}

impl ReplState {
    /// A fresh state: the two standard collections imported, nothing else.
    pub fn new() -> (r: Self)
        ensures
            strs_of(r.uses@) == prelude_uses(),
            r.items@.len() == 0,
            r.expr_id == 0,
            r.history@.len() == 0,
            !r.show_rust,
    {
        let mut uses: Vec<String> = Vec::new();
        uses.push(string_of("use std::collections::HashMap;"));
        uses.push(string_of("use std::collections::HashSet;"));
        assert(strs_of(uses@) =~= prelude_uses());
        ReplState { uses, items: Vec::new(), expr_id: 0, history: Vec::new(), show_rust: false }
    }

    /// Back to the standard imports, with no definitions and no evaluations;
    /// the history and the display choice stay.
    pub fn clear(&mut self)
        ensures
            strs_of(final(self).uses@) == prelude_uses(),
            final(self).items@.len() == 0,
            final(self).expr_id == 0,
            final(self).history@ == old(self).history@,
            final(self).show_rust == old(self).show_rust,
    {
        let mut uses: Vec<String> = Vec::new();
        uses.push(string_of("use std::collections::HashMap;"));
        uses.push(string_of("use std::collections::HashSet;"));
        assert(strs_of(uses@) =~= prelude_uses());
        self.uses = uses;
        self.items = Vec::new();
        self.expr_id = 0;
    }

    /// A complete program: the accumulated imports and definitions, then
    /// `main` holding the lines of `main_body`, each indented.
    pub fn build_program(&self, main_body: &str) -> (r: String)
        ensures
            r@ == program_source(strs_of(self.uses@), strs_of(self.items@), main_body@),
    {
        let mut prog = string_of(
            "#![allow(unused_imports, unused_variables, unused_mut, dead_code, unused_parens)]\n\n",
        );
        push_str(&mut prog, lines_joined(&self.uses).as_str());
        push_str(&mut prog, "\n");
        push_str(&mut prog, lines_joined(&self.items).as_str());
        push_str(&mut prog, "\nfn main() {\n");
        let ls = lines_of(main_body);
        let ghost parts = indented(lines(main_body@));
        let mut body = empty_string();
        let mut i: usize = 0;
        while i < ls.len()
            invariant
                i <= ls.len(),
                strs_of(ls@) == lines(main_body@),
                parts == indented(lines(main_body@)),
                body@ == concat(parts.take(i as int)),
            decreases ls.len() - i,
        {
            proof {
                lemma_concat_push(parts, i as int);
            }
            let mut t = string_of("    ");
            push_str(&mut t, ls[i].as_str());
            push_str(&mut t, "\n");
            push_str(&mut body, t.as_str());
            i += 1;
        }
        assert(parts.take(ls.len() as int) == parts);
        push_str(&mut prog, body.as_str());
        push_str(&mut prog, "}\n");
        prog
    }

    /// A program that evaluates `expr_rust` and prints its value with `{:?}`.
    pub fn build_print_program(&self, expr_rust: &str) -> (r: String)
        ensures
            r@ == program_source(strs_of(self.uses@), strs_of(self.items@), print_body(expr_rust@)),
    {
        let body = print_body_of(expr_rust);
        self.build_program(body.as_str())
    }

    /// A program that runs `body_rust` for its effects.
    pub fn build_exec_program(&self, body_rust: &str) -> (r: String)
        ensures
            r@ == program_source(strs_of(self.uses@), strs_of(self.items@), body_rust@),
    {
        self.build_program(body_rust)
    }
}

/// The `main` body that prints the value of `e`.
fn print_body_of(e: &str) -> (r: String)
    ensures
        r@ == print_body(e@),
{
    let t = trim_str(e);
    let inner = trim_end_char_str(t.as_str(), ';');
    let mut r = string_of("let __result = {\n    ");
    push_str(&mut r, inner.as_str());
    push_str(&mut r, "\n};\nprintln!(\"{:?}\", __result);");
    r
}

// ── Taking in forms ─────────────────────────────────────────────────────

/// What taking in a form did.
pub enum Absorbed {
    /// A new import, with its Rust text.
    Added(String),
    /// An import that was already there.
    AlreadyImported,
    /// A definition, with its name and its Rust text.
    Defined(String, String),
    /// An expression, left for evaluation.
    Expression,
}

/// The Rust text that the loop keeps for a form.
pub open spec fn kept_text(t: SpecTopLevel) -> Seq<char> {
    trim(top_text(t, 0) + "\n"@)
}

/// Whether `v` holds a string equal to `s`.
fn holds(v: &Vec<String>, s: &String) -> (r: bool)
    ensures
        r == strs_of(v@).contains(s@),
{
    let mut i: usize = 0;
    while i < v.len()
        invariant
            i <= v.len(),
            forall|j: int| 0 <= j < i ==> strs_of(v@)[j] != s@,
        decreases v.len() - i,
    {
        if str_eq(v[i].as_str(), s.as_str()) {
            assert(strs_of(v@)[i as int] == s@);
            return true;
        }
        i += 1;
    }
    false
}

impl ReplState {
    /// Takes in a form: an import is added unless already there, a
    /// definition is added to the definitions, an expression changes nothing.
    pub fn absorb(&mut self, item: &TopLevel) -> (r: Absorbed)
        ensures
            final(self).expr_id == old(self).expr_id,
            final(self).history@ == old(self).history@,
            final(self).show_rust == old(self).show_rust,
            match kind_of(item@) {
                InputKind::Use => if strs_of(old(self).uses@).contains(kept_text(item@)) {
                    r is AlreadyImported && final(self).uses@ == old(self).uses@ && final(self).items@
                        == old(self).items@
                } else {
                    r matches Absorbed::Added(t) && t@ == kept_text(item@) && strs_of(final(self).uses@)
                        == strs_of(old(self).uses@).push(kept_text(item@)) && final(self).items@
                        == old(self).items@
                },
                InputKind::Definition => r matches Absorbed::Defined(n, t) && n@ == name_of(item@) && t@
                    == kept_text(item@) && final(self).uses@ == old(self).uses@ && strs_of(final(self).items@)
                    == strs_of(old(self).items@).push(kept_text(item@)),
                InputKind::Expression => r is Expression && final(self).uses@ == old(self).uses@
                    && final(self).items@ == old(self).items@,
            },
    {
        match classify(item) {
            InputKind::Use => {
                let rust = trim_str(gen_top_level(item).as_str());
                if holds(&self.uses, &rust) {
                    Absorbed::AlreadyImported
                } else {
                    let ghost before = self.uses@;
                    let t = string_of(rust.as_str());
                    self.uses.push(rust);
                    assert(strs_of(self.uses@) =~= strs_of(before).push(t@));
                    Absorbed::Added(t)
                }
            },
            InputKind::Definition => {
                let rust = trim_str(gen_top_level(item).as_str());
                let name = def_name(item);
                let ghost before = self.items@;
                let t = string_of(rust.as_str());
                self.items.push(rust);
                assert(strs_of(self.items@) =~= strs_of(before).push(t@));
                Absorbed::Defined(name, t)
            },
            InputKind::Expression => Absorbed::Expression,
        }
    }

    /// Remembers an evaluated input.
    pub fn remember(&mut self, input: &str)
        ensures
            strs_of(final(self).history@) == strs_of(old(self).history@).push(input@),
            final(self).uses@ == old(self).uses@,
            final(self).items@ == old(self).items@,
            final(self).expr_id == old(self).expr_id,
            final(self).show_rust == old(self).show_rust,
    {
        let ghost before = self.history@;
        self.history.push(string_of(input));
        assert(strs_of(self.history@) =~= strs_of(before).push(input@));
    }

    /// Counts one more evaluation (wrapping around at the largest count).
    pub fn count_evaluation(&mut self)
        ensures
            final(self).expr_id == if old(self).expr_id == usize::MAX { 0 } else { old(self).expr_id + 1 },
            final(self).uses@ == old(self).uses@,
            final(self).items@ == old(self).items@,
            final(self).history@ == old(self).history@,
            final(self).show_rust == old(self).show_rust,
    {
        self.expr_id = self.expr_id.wrapping_add(1);
    }
}

// ── Evaluating expressions ──────────────────────────────────────────────

/// The kept Rust text of each expression among `ts`, in order.
pub open spec fn expr_codes(ts: Seq<SpecTopLevel>) -> Seq<Seq<char>>
    decreases ts.len(),
{
    if ts.len() == 0 {
        Seq::empty()
    } else {
        let rest = expr_codes(ts.drop_last());
        if kind_of(ts.last()) == InputKind::Expression {
            rest.push(kept_text(ts.last()))
        } else {
            rest
        }
    }
}

/// Every expression among `ts` is run for its effect only.
pub open spec fn all_statements(ts: Seq<SpecTopLevel>) -> bool
    decreases ts.len(),
{
    if ts.len() == 0 {
        true
    } else {
        all_statements(ts.drop_last()) && (kind_of(ts.last()) == InputKind::Expression ==> statement_like(
            ts.last(),
        ))
    }
}

/// A `main` body that runs every line but the last and prints the value of
/// the last.
pub open spec fn print_last_body(ls: Seq<Seq<char>>) -> Seq<char> {
    join(ls.drop_last(), "\n"@) + "\nlet __result = {\n    "@ + trim_end_char(trim(ls.last()), ';')
        + "\n};\nprintln!(\"{:?}\", __result);"@
}

/// The program that evaluates the expressions among `ts` with the given
/// imports and definitions, and whether they are all run for effect only;
/// none when there is no expression. Effect-only expressions are just run; a
/// single expression has its value printed; of several, all lines run and
/// the last line's value is printed.
pub open spec fn eval_source(uses: Seq<Seq<char>>, items: Seq<Seq<char>>, ts: Seq<SpecTopLevel>) -> Option<
    (Seq<char>, bool),
> {
    let codes = expr_codes(ts);
    if codes.len() == 0 {
        None
    } else {
        let e = trim(concat(with_breaks(codes)));
        let all = all_statements(ts);
        let src = if all {
            program_source(uses, items, e)
        } else if codes.len() == 1 {
            program_source(uses, items, print_body(e))
        } else if lines(e).len() > 1 {
            program_source(uses, items, print_last_body(lines(e)))
        } else {
            program_source(uses, items, print_body(e))
        };
        Some((src, all))
    }
}

impl ReplState {
    /// The program that evaluates the expressions among `items`, and
    /// whether they are all run for effect only; `None` when there is none.
    pub fn expression_program(&self, items: &Vec<TopLevel>) -> (r: Option<(String, bool)>)
        ensures
            match eval_source(strs_of(self.uses@), strs_of(self.items@), crate::ast::toplevels_view(items@)) {
                None => r is None,
                Some((src, all)) => r matches Some((s, a)) && s@ == src && a == all,
            },
    {
        let ghost ts = crate::ast::toplevels_view(items@);
        let mut expr_rust = empty_string();
        let mut count: usize = 0;
        let mut all = true;
        let mut i: usize = 0;
        assert(ts.take(0) =~= Seq::<SpecTopLevel>::empty());
        while i < items.len()
            invariant
                i <= items.len(),
                ts == crate::ast::toplevels_view(items@),
                count <= i,
                count == expr_codes(ts.take(i as int)).len(),
                expr_rust@ == concat(with_breaks(expr_codes(ts.take(i as int)))),
                all == all_statements(ts.take(i as int)),
            decreases items.len() - i,
        {
            assert(ts.take(i + 1).drop_last() =~= ts.take(i as int));
            assert(ts.take(i + 1).last() == ts[i as int]);
            if classify(&items[i]) == InputKind::Expression {
                let code = trim_str(gen_top_level(&items[i]).as_str());
                let ghost codes = expr_codes(ts.take(i as int));
                let ghost c = code@;
                let mut t = code;
                push_str(&mut t, "\n");
                push_str(&mut expr_rust, t.as_str());
                assert(with_breaks(codes.push(c)) =~= with_breaks(codes).push(c + "\n"@));
                assert(with_breaks(codes).push(c + "\n"@).drop_last() =~= with_breaks(codes));
                all = all && is_statement_expr(&items[i]);
                count += 1;
            }
            i += 1;
        }
        assert(ts.take(items.len() as int) =~= ts);
        if count == 0 {
            return None;
        }
        let e = trim_str(expr_rust.as_str());
        let src = if all {
            self.build_exec_program(e.as_str())
        } else if count == 1 {
            self.build_print_program(e.as_str())
        } else {
            let ls = lines_of(e.as_str());
            if ls.len() > 1 {
                let body = print_last_body_of(&ls);
                self.build_program(body.as_str())
            } else {
                self.build_print_program(e.as_str())
            }
        };
        Some((src, all))
    }
}

/// The `main` body that runs all lines of `ls` but the last and prints the
/// value of the last.
fn print_last_body_of(ls: &Vec<String>) -> (r: String)
    requires
        ls.len() > 1,
    ensures
        r@ == print_last_body(strs_of(ls@)),
{
    let n = ls.len() - 1;
    let ghost parts = strs_of(ls@).drop_last();
    let mut r = empty_string();
    let mut i: usize = 0;
    while i < n
        invariant
            n == ls.len() - 1,
            i <= n,
            parts == strs_of(ls@).drop_last(),
            r@ == join(parts.take(i as int), "\n"@),
        decreases n - i,
    {
        proof {
            lemma_join_push(parts, "\n"@, i as int);
        }
        if i > 0 {
            push_str(&mut r, "\n");
        }
        push_str(&mut r, ls[i].as_str());
        i += 1;
    }
    assert(parts.take(n as int) =~= parts);
    let last = trim_end_char_str(trim_str(ls[n].as_str()).as_str(), ';');
    push_str(&mut r, "\nlet __result = {\n    ");
    push_str(&mut r, last.as_str());
    push_str(&mut r, "\n};\nprintln!(\"{:?}\", __result);");
    r
}

// ── Compiler errors ─────────────────────────────────────────────────────

/// The lines of a compiler message that are kept: those naming the
/// temporary file's location are dropped, the file's name becomes
/// `<repl>`, lines are trimmed and empty ones dropped.
pub open spec fn cleaned_lines(ls: Seq<Seq<char>>) -> Seq<Seq<char>>
    decreases ls.len(),
{
    if ls.len() == 0 {
        Seq::empty()
    } else {
        let rest = cleaned_lines(ls.drop_last());
        let l = ls.last();
        if contains_seq(l, "__cljrust_repl"@) && contains_seq(l, "-->"@) {
            rest
        } else {
            let c = trim(replace_all(l, "__cljrust_repl.rs"@, "<repl>"@));
            if c.len() == 0 {
                rest
            } else {
                rest.push(c)
            }
        }
    }
}

/// A line that carries the message: an `error`, `help`, or source line.
pub open spec fn telling(l: Seq<char>) -> bool {
    starts_with(l, "error"@) || starts_with(l, "  "@) || starts_with(l, "|"@) || starts_with(l, "help"@)
}

/// The telling lines among `ls`, in order.
pub open spec fn telling_lines(ls: Seq<Seq<char>>) -> Seq<Seq<char>>
    decreases ls.len(),
{
    if ls.len() == 0 {
        Seq::empty()
    } else {
        let rest = telling_lines(ls.drop_last());
        if telling(ls.last()) {
            rest.push(ls.last())
        } else {
            rest
        }
    }
}

/// The first `n` of `ls`, or all of them if there are fewer.
pub open spec fn first_n(ls: Seq<Seq<char>>, n: nat) -> Seq<Seq<char>> {
    if ls.len() <= n {
        ls
    } else {
        ls.take(n as int)
    }
}

/// The lines the loop shows of a compiler message: the first eight telling
/// kept lines, or, if none tells, the first five kept lines.
pub open spec fn message_lines(stderr: Seq<char>) -> Seq<Seq<char>> {
    let kept = cleaned_lines(lines(stderr));
    let telling = telling_lines(kept);
    if telling.len() == 0 {
        first_n(kept, 5)
    } else {
        first_n(telling, 8)
    }
}

/// What the loop shows of a compiler message: its shown lines, one per line.
pub open spec fn rustc_message(stderr: Seq<char>) -> Seq<char> {
    join(message_lines(stderr), "\n"@)
}

/// Kept lines are never empty.
proof fn lemma_cleaned_nonempty(ls: Seq<Seq<char>>)
    ensures
        forall|k: int| 0 <= k < cleaned_lines(ls).len() ==> #[trigger] cleaned_lines(ls)[k].len() > 0,
    decreases ls.len(),
{
    if ls.len() > 0 {
        lemma_cleaned_nonempty(ls.drop_last());
        let rest = cleaned_lines(ls.drop_last());
        let out = cleaned_lines(ls);
        assert forall|k: int| 0 <= k < out.len() implies #[trigger] out[k].len() > 0 by {
            if k < rest.len() {
                assert(out[k] == rest[k]);
            }
        }
    }
}

/// Kept lines never name the temporary source file.
proof fn lemma_cleaned_unnamed(ls: Seq<Seq<char>>)
    ensures
        forall|k: int|
            0 <= k < cleaned_lines(ls).len() ==> !contains_seq(#[trigger] cleaned_lines(ls)[k], "__cljrust_repl.rs"@),
    decreases ls.len(),
{
    if ls.len() > 0 {
        lemma_cleaned_unnamed(ls.drop_last());
        let rest = cleaned_lines(ls.drop_last());
        let out = cleaned_lines(ls);
        let p = "__cljrust_repl.rs"@;
        let r = "<repl>"@;
        reveal_strlit("__cljrust_repl.rs");
        reveal_strlit("<repl>");
        assert(!p.contains(r[0]));
        assert(!p.contains(r.last()));
        let x = replace_all(ls.last(), p, r);
        crate::text::lemma_replace_all_removes(ls.last(), p, r);
        let (a, b) = crate::text::lemma_trim_piece(x);
        crate::text::lemma_piece_lacks(x, a, b, p);
        assert forall|k: int| 0 <= k < out.len() implies !contains_seq(#[trigger] out[k], p) by {
            if k < rest.len() {
                assert(out[k] == rest[k]);
            }
        }
    }
}

/// The telling lines are among the lines they are picked from.
proof fn lemma_telling_picked(ls: Seq<Seq<char>>)
    ensures
        forall|k: int|
            0 <= k < telling_lines(ls).len() ==> exists|j: int| 0 <= j < ls.len() && ls[j] == #[trigger] telling_lines(ls)[k],
    decreases ls.len(),
{
    if ls.len() > 0 {
        lemma_telling_picked(ls.drop_last());
        let rest = telling_lines(ls.drop_last());
        assert forall|k: int| 0 <= k < telling_lines(ls).len() implies exists|j: int|
            0 <= j < ls.len() && ls[j] == #[trigger] telling_lines(ls)[k] by {
            if k < rest.len() {
                let j = choose|j: int| 0 <= j < ls.drop_last().len() && ls.drop_last()[j] == rest[k];
                assert(ls[j] == telling_lines(ls)[k]);
            } else {
                assert(ls[ls.len() - 1] == telling_lines(ls)[k]);
            }
        }
    }
}

/// A compiler message is shown in at most eight lines, joined by line
/// breaks; none of them is empty, and none names the temporary source file.
pub proof fn lemma_message_short(stderr: Seq<char>)
    ensures
        rustc_message(stderr) == join(message_lines(stderr), "\n"@),
        message_lines(stderr).len() <= 8,
        forall|k: int| 0 <= k < message_lines(stderr).len() ==> #[trigger] message_lines(stderr)[k].len() > 0,
        forall|k: int|
            0 <= k < message_lines(stderr).len() ==> !contains_seq(
                #[trigger] message_lines(stderr)[k],
                "__cljrust_repl.rs"@,
            ),
{
    let kept = cleaned_lines(lines(stderr));
    lemma_cleaned_nonempty(lines(stderr));
    lemma_cleaned_unnamed(lines(stderr));
    lemma_telling_picked(kept);
    let m = message_lines(stderr);
    assert forall|k: int| 0 <= k < m.len() implies #[trigger] m[k].len() > 0 && !contains_seq(
        m[k],
        "__cljrust_repl.rs"@,
    ) by {
        let t = telling_lines(kept);
        if t.len() == 0 {
            assert(m[k] == kept[k]);
        } else {
            assert(m[k] == t[k]);
            let j = choose|j: int| 0 <= j < kept.len() && kept[j] == t[k];
            assert(kept[j].len() > 0);
        }
    }
}

/// The lines of `v` up to `n`, joined by line breaks.
fn join_first(v: &Vec<String>, n: usize) -> (r: String)
    ensures
        r@ == join(first_n(strs_of(v@), n as nat), "\n"@),
{
    let m = if v.len() <= n { v.len() } else { n };
    let ghost parts = first_n(strs_of(v@), n as nat);
    assert(parts.len() == m);
    let mut r = empty_string();
    let mut i: usize = 0;
    while i < m
        invariant
            i <= m,
            m <= v.len(),
            parts == first_n(strs_of(v@), n as nat),
            parts.len() == m,
            forall|j: int| 0 <= j < m ==> parts[j] == v@[j]@,
            r@ == join(parts.take(i as int), "\n"@),
        decreases m - i,
    {
        proof {
            lemma_join_push(parts, "\n"@, i as int);
        }
        if i > 0 {
            push_str(&mut r, "\n");
        }
        push_str(&mut r, v[i].as_str());
        i += 1;
    }
    assert(parts.take(m as int) =~= parts);
    r
}

/// A compiler message as the loop shows it: temporary file locations
/// dropped, the file called `<repl>`, and only the telling lines kept.
pub fn clean_rustc_error(stderr: &str) -> (r: String)
    ensures
        r@ == rustc_message(stderr@),
{
    let all = lines_of(stderr);
    let ghost ls = lines(stderr@);
    let mut kept: Vec<String> = Vec::new();
    let mut i: usize = 0;
    proof {
        reveal_strlit("__cljrust_repl.rs");
        reveal_strlit("");
    }
    assert(ls.take(0) =~= Seq::<Seq<char>>::empty());
    while i < all.len()
        invariant
            i <= all.len(),
            strs_of(all@) == ls,
            ls == lines(stderr@),
            "__cljrust_repl.rs"@.len() > 0,
            ""@ == Seq::<char>::empty(),
            strs_of(kept@) == cleaned_lines(ls.take(i as int)),
        decreases all.len() - i,
    {
        assert(ls.take(i + 1).drop_last() =~= ls.take(i as int));
        assert(ls.take(i + 1).last() == all@[i as int]@);
        let line = all[i].as_str();
        let ghost l = line@;
        assert(l == ls[i as int]);
        assert(cleaned_lines(ls.take(i + 1)) == (if contains_seq(l, "__cljrust_repl"@) && contains_seq(l, "-->"@) {
            cleaned_lines(ls.take(i as int))
        } else {
            let c = trim(replace_all(l, "__cljrust_repl.rs"@, "<repl>"@));
            if c.len() == 0 {
                cleaned_lines(ls.take(i as int))
            } else {
                cleaned_lines(ls.take(i as int)).push(c)
            }
        }));
        if !(contains_str(line, "__cljrust_repl") && contains_str(line, "-->")) {
            let cleaned = trim_str(replace_str(line, "__cljrust_repl.rs", "<repl>").as_str());
            if !str_eq(cleaned.as_str(), "") {
                assert(cleaned@.len() != 0) by {
                    if cleaned@.len() == 0 {
                        assert(cleaned@ =~= ""@);
                    }
                }
                let ghost before = kept@;
                let ghost cv = cleaned@;
                kept.push(cleaned);
                assert(strs_of(kept@) =~= strs_of(before).push(cv));
            }
        }
        i += 1;
    }
    assert(ls.take(all.len() as int) =~= ls);
    let ghost k = strs_of(kept@);
    let mut telling: Vec<String> = Vec::new();
    let mut j: usize = 0;
    assert(k.take(0) =~= Seq::<Seq<char>>::empty());
    while j < kept.len()
        invariant
            j <= kept.len(),
            k == strs_of(kept@),
            strs_of(telling@) == telling_lines(k.take(j as int)),
        decreases kept.len() - j,
    {
        assert(k.take(j + 1).drop_last() =~= k.take(j as int));
        assert(k.take(j + 1).last() == kept@[j as int]@);
        let l = kept[j].as_str();
        if starts_with_str(l, "error") || starts_with_str(l, "  ") || starts_with_str(l, "|") || starts_with_str(
            l,
            "help",
        ) {
            let ghost before = telling@;
            let t = string_of(l);
            let ghost tv = t@;
            telling.push(t);
            assert(strs_of(telling@) =~= strs_of(before).push(tv));
        }
        j += 1;
    }
    assert(k.take(kept.len() as int) =~= k);
    if telling.len() == 0 {
        join_first(&kept, 5)
    } else {
        join_first(&telling, 8)
    }
}


// ── The loop's steps ────────────────────────────────────────────────────

/// The input being collected, and whether the last line left it incomplete.
pub struct LoopState {
    pub buf: String,
    pub continuation: bool,
}

impl LoopState {
    /// Nothing collected, waiting for a first line.
    pub fn new() -> (r: Self)
        ensures
            r.buf@.len() == 0,
            !r.continuation,
    {
        LoopState { buf: empty_string(), continuation: false }
    }
}

/// A `:` command, by its first word.
#[derive(Debug, Clone, Copy, PartialEq, Eq, Structural)]
pub enum Command {
    Quit,
    Help,
    Rust,
    Clear,
    Defs,
    History,
    Load,
    Last,
    Unknown,
}

/// Which command a first word names.
pub open spec fn command_of(w: Seq<char>) -> Command {
    if w == ":quit"@ || w == ":q"@ || w == ":exit"@ {
        Command::Quit
    } else if w == ":help"@ || w == ":h"@ || w == ":?"@ {
        Command::Help
    } else if w == ":rust"@ {
        Command::Rust
    } else if w == ":clear"@ {
        Command::Clear
    } else if w == ":defs"@ {
        Command::Defs
    } else if w == ":history"@ {
        Command::History
    } else if w == ":load"@ {
        Command::Load
    } else if w == ":last-rs"@ || w == ":last"@ {
        Command::Last
    } else {
        Command::Unknown
    }
}

/// The command words that the help text documents name their commands, and
/// a word that does not begin with `:` names none.
pub proof fn lemma_command_words(w: Seq<char>)
    ensures
        command_of(":quit"@) == Command::Quit && command_of(":q"@) == Command::Quit && command_of(":exit"@)
            == Command::Quit,
        command_of(":help"@) == Command::Help && command_of(":h"@) == Command::Help && command_of(":?"@)
            == Command::Help,
        command_of(":rust"@) == Command::Rust,
        command_of(":clear"@) == Command::Clear,
        command_of(":defs"@) == Command::Defs,
        command_of(":history"@) == Command::History,
        command_of(":load"@) == Command::Load,
        command_of(":last-rs"@) == Command::Last && command_of(":last"@) == Command::Last,
        (w.len() == 0 || w[0] != ':') ==> command_of(w) == Command::Unknown,
{
    reveal_strlit(":quit");
    reveal_strlit(":q");
    reveal_strlit(":exit");
    reveal_strlit(":help");
    reveal_strlit(":h");
    reveal_strlit(":?");
    reveal_strlit(":rust");
    reveal_strlit(":clear");
    reveal_strlit(":defs");
    reveal_strlit(":history");
    reveal_strlit(":load");
    reveal_strlit(":last-rs");
    reveal_strlit(":last");
    // Every word begins with `:`; words of one length differ in their
    // second character, but for `:load`/`:last` (third).
    assert(":quit"@[0] == ':' && ":q"@[0] == ':' && ":exit"@[0] == ':' && ":help"@[0] == ':' && ":h"@[0] == ':'
        && ":?"@[0] == ':' && ":rust"@[0] == ':' && ":clear"@[0] == ':' && ":defs"@[0] == ':'
        && ":history"@[0] == ':' && ":load"@[0] == ':' && ":last-rs"@[0] == ':' && ":last"@[0] == ':');
    assert(":quit"@[1] == 'q' && ":q"@[1] == 'q' && ":exit"@[1] == 'e' && ":help"@[1] == 'h' && ":h"@[1] == 'h'
        && ":?"@[1] == '?' && ":rust"@[1] == 'r' && ":clear"@[1] == 'c' && ":defs"@[1] == 'd'
        && ":history"@[1] == 'h' && ":load"@[1] == 'l' && ":last-rs"@[1] == 'l' && ":last"@[1] == 'l');
    assert(":load"@[2] == 'o' && ":last"@[2] == 'a');
    assert(":quit"@.len() == 5 && ":q"@.len() == 2 && ":exit"@.len() == 5 && ":help"@.len() == 5 && ":h"@.len() == 2
        && ":?"@.len() == 2 && ":rust"@.len() == 5 && ":clear"@.len() == 6 && ":defs"@.len() == 5
        && ":history"@.len() == 8 && ":load"@.len() == 5 && ":last-rs"@.len() == 8 && ":last"@.len() == 5);
}

/// What the loop does after a line.
pub enum LoopAction {
    /// Leave the loop.
    Quit,
    /// Show the help text.
    Help,
    /// Generated Rust is now shown (or not).
    ToggledRust(bool),
    /// The accumulated imports and definitions were cleared.
    Cleared,
    /// Show the accumulated definitions.
    ShowDefs,
    /// Show the inputs evaluated so far.
    ShowHistory,
    /// Read and evaluate the file at this path.
    Load(String),
    /// `:load` without a path.
    LoadUsage,
    /// Show the last generated program.
    ShowLast,
    /// A `:` word that names no command.
    Unknown(String),
    /// A pending input turned out blank and was dropped.
    Cancelled,
    /// An empty line with nothing pending.
    Nothing,
    /// The input is incomplete: wait for more lines.
    MoreInput,
    /// Evaluate this complete input.
    Evaluate(String),
}

/// The text collected once `line` is read: added to what is pending, or
/// alone when nothing is.
pub open spec fn typed(lp: LoopState, line: Seq<char>) -> Seq<char> {
    if lp.continuation {
        lp.buf@ + line
    } else {
        line
    }
}

/// The position of the first space of `t`, or its length.
pub open spec fn space_at(t: Seq<char>) -> int {
    find_char(t, ' ', 0)
}

/// The first word of a command line.
pub open spec fn first_word(t: Seq<char>) -> Seq<char> {
    t.take(space_at(t))
}

/// What follows the first space of a command line, if there is a space.
pub open spec fn command_arg(t: Seq<char>) -> Option<Seq<char>> {
    if space_at(t) < t.len() {
        Some(t.skip(space_at(t) + 1))
    } else {
        None
    }
}

/// A trimmed first line that begins with `:` is a command.
pub open spec fn is_command(lp: LoopState, t: Seq<char>) -> bool {
    !lp.continuation && t.len() > 0 && t[0] == ':'
}

/// What a command does and answers. Only `:rust` and `:clear` change the
/// accumulated state; `:load` answers the trimmed path after the word.
pub open spec fn command_done(t: Seq<char>, st0: ReplState, st1: ReplState, r: LoopAction) -> bool {
    match command_of(first_word(t)) {
        Command::Quit => r is Quit && st1 == st0,
        Command::Help => r is Help && st1 == st0,
        Command::Rust => r matches LoopAction::ToggledRust(on) && on == !st0.show_rust && st1.show_rust == on
            && st1.uses@ == st0.uses@ && st1.items@ == st0.items@ && st1.expr_id == st0.expr_id
            && st1.history@ == st0.history@,
        Command::Clear => r is Cleared && strs_of(st1.uses@) == prelude_uses() && st1.items@.len() == 0
            && st1.expr_id == 0 && st1.history@ == st0.history@ && st1.show_rust == st0.show_rust,
        Command::Defs => r is ShowDefs && st1 == st0,
        Command::History => r is ShowHistory && st1 == st0,
        Command::Load => st1 == st0 && match command_arg(t) {
            None => r is LoadUsage,
            Some(a) => r matches LoopAction::Load(p) && p@ == trim(a),
        },
        Command::Last => r is ShowLast && st1 == st0,
        Command::Unknown => r matches LoopAction::Unknown(w) && w@ == first_word(t) && st1 == st0,
    }
}

/// The command named by the first word `w`.
fn command_kind(w: &str) -> (c: Command)
    ensures
        c == command_of(w@),
{
    if str_eq(w, ":quit") || str_eq(w, ":q") || str_eq(w, ":exit") {
        Command::Quit
    } else if str_eq(w, ":help") || str_eq(w, ":h") || str_eq(w, ":?") {
        Command::Help
    } else if str_eq(w, ":rust") {
        Command::Rust
    } else if str_eq(w, ":clear") {
        Command::Clear
    } else if str_eq(w, ":defs") {
        Command::Defs
    } else if str_eq(w, ":history") {
        Command::History
    } else if str_eq(w, ":load") {
        Command::Load
    } else if str_eq(w, ":last-rs") || str_eq(w, ":last") {
        Command::Last
    } else {
        Command::Unknown
    }
}

/// A command line split at its first space: the first word, and the rest
/// when there is a space.
fn split_command(t: &str) -> (r: (String, Option<String>))
    ensures
        r.0@ == first_word(t@),
        match command_arg(t@) {
            None => r.1 is None,
            Some(a) => r.1 matches Some(s) && s@ == a,
        },
{
    let cs = chars_of(t);
    let mut k: usize = 0;
    while k < cs.len() && cs[k] != ' '
        invariant
            k <= cs.len(),
            cs@ == t@,
            find_char(t@, ' ', 0) == find_char(t@, ' ', k as int),
        decreases cs.len() - k,
    {
        k += 1;
    }
    assert(space_at(t@) == k);
    let w = take_chars(&cs, 0, k);
    assert(t@.subrange(0, k as int) =~= t@.take(k as int));
    if k < cs.len() {
        let rest = take_chars(&cs, k + 1, cs.len());
        assert(t@.subrange(k + 1, cs.len() as int) =~= t@.skip(k + 1));
        (w, Some(rest))
    } else {
        (w, None)
    }
}

/// Reads one line of input and decides what follows: the line is added to
/// the pending input (or starts a new one), and the trimmed text is then
/// - blank: nothing to do, and a pending input that is blank as a whole is
///   dropped (one that holds anything goes on collecting lines);
/// - a command, on a first line beginning with `:`: the command is decided
///   and done on the state where it changes it;
/// - incomplete (brackets not closed): kept, and more lines are awaited;
/// - otherwise: handed out to be evaluated.
pub fn loop_step(lp: &mut LoopState, st: &mut ReplState, line: &str) -> (r: LoopAction)
    requires
        old(lp).buf@.len() + line@.len() < i64::MAX,
    ensures
        trim(typed(*old(lp), line@)).len() == 0 ==> (if old(lp).continuation {
            r is Cancelled
        } else {
            r is Nothing
        }) && !final(lp).continuation && final(lp).buf@.len() == 0 && *final(st) == *old(st),
        trim(typed(*old(lp), line@)).len() > 0 && is_command(*old(lp), trim(typed(*old(lp), line@))) ==> command_done(
            trim(typed(*old(lp), line@)),
            *old(st),
            *final(st),
            r,
        ) && !final(lp).continuation && final(lp).buf@.len() == 0,
        trim(typed(*old(lp), line@)).len() > 0 && !is_command(*old(lp), trim(typed(*old(lp), line@))) && !balanced(
            trim(typed(*old(lp), line@)),
        ) ==> r is MoreInput && final(lp).continuation && final(lp).buf@ == typed(*old(lp), line@) && *final(st)
            == *old(st),
        trim(typed(*old(lp), line@)).len() > 0 && !is_command(*old(lp), trim(typed(*old(lp), line@))) && balanced(
            trim(typed(*old(lp), line@)),
        ) ==> (r matches LoopAction::Evaluate(s) && s@ == trim(typed(*old(lp), line@)) && !final(lp).continuation
            && final(lp).buf@.len() == 0 && *final(st) == *old(st)),
{
    let ghost input = typed(*old(lp), line@);
    let was_continuing = lp.continuation;
    if !lp.continuation {
        lp.buf = empty_string();
    }
    push_str(&mut lp.buf, line);
    assert(lp.buf@ =~= input);
    let t = trim_str(lp.buf.as_str());
    let tc = chars_of(t.as_str());
    if tc.len() == 0 {
        lp.continuation = false;
        lp.buf = empty_string();
        return if was_continuing {
            LoopAction::Cancelled
        } else {
            LoopAction::Nothing
        };
    }
    if !was_continuing && tc[0] == ':' {
        lp.buf = empty_string();
        let (w, arg) = split_command(t.as_str());
        let ghost st0 = *st;
        let c = command_kind(w.as_str());
        let r = match c {
            Command::Quit => LoopAction::Quit,
            Command::Help => LoopAction::Help,
            Command::Rust => {
                st.show_rust = !st.show_rust;
                LoopAction::ToggledRust(st.show_rust)
            },
            Command::Clear => {
                st.clear();
                LoopAction::Cleared
            },
            Command::Defs => LoopAction::ShowDefs,
            Command::History => LoopAction::ShowHistory,
            Command::Load => match arg {
                None => LoopAction::LoadUsage,
                Some(a) => LoopAction::Load(trim_str(a.as_str())),
            },
            Command::Last => LoopAction::ShowLast,
            Command::Unknown => LoopAction::Unknown(w),
        };
        assert(c == command_of(first_word(t@)));
        assert(command_done(t@, st0, *st, r));
        return r;
    }
    proof {
        crate::text::lemma_trim_len(input);
    }
    if !is_balanced(t.as_str()) {
        lp.continuation = true;
        return LoopAction::MoreInput;
    }
    lp.continuation = false;
    lp.buf = empty_string();
    LoopAction::Evaluate(t)
}


// ── Taking in a whole input ─────────────────────────────────────────────

/// The imports after taking in the forms `ts` in order: each import not
/// already there is added once.
pub open spec fn uses_after(uses: Seq<Seq<char>>, ts: Seq<SpecTopLevel>) -> Seq<Seq<char>>
    decreases ts.len(),
{
    if ts.len() == 0 {
        uses
    } else {
        let u = uses_after(uses, ts.drop_last());
        if kind_of(ts.last()) == InputKind::Use && !u.contains(kept_text(ts.last())) {
            u.push(kept_text(ts.last()))
        } else {
            u
        }
    }
}

/// The definitions after taking in the forms `ts` in order: each
/// definition's text is added.
pub open spec fn items_after(items: Seq<Seq<char>>, ts: Seq<SpecTopLevel>) -> Seq<Seq<char>>
    decreases ts.len(),
{
    if ts.len() == 0 {
        items
    } else {
        let d = items_after(items, ts.drop_last());
        if kind_of(ts.last()) == InputKind::Definition {
            d.push(kept_text(ts.last()))
        } else {
            d
        }
    }
}

/// What taking in the form `t` answers, given the imports before it.
pub open spec fn absorbed_as(r: Absorbed, uses: Seq<Seq<char>>, t: SpecTopLevel) -> bool {
    match kind_of(t) {
        InputKind::Use => if uses.contains(kept_text(t)) {
            r is AlreadyImported
        } else {
            r matches Absorbed::Added(x) && x@ == kept_text(t)
        },
        InputKind::Definition => r matches Absorbed::Defined(n, x) && n@ == name_of(t) && x@ == kept_text(t),
        InputKind::Expression => r is Expression,
    }
}

/// An input of forms none of which is an expression: it is remembered as
/// soon as it is taken in.
pub open spec fn only_declarations(ts: Seq<SpecTopLevel>) -> bool {
    ts.len() > 0 && forall|j: int| 0 <= j < ts.len() ==> kind_of(#[trigger] ts[j]) != InputKind::Expression
}

impl ReplState {
    /// Takes in all the forms of one input, in order: imports and
    /// definitions accumulate, an input of declarations only is remembered,
    /// and the program that evaluates its expressions (if any) is returned
    /// with the answer for each form.
    pub fn take_in(&mut self, input: &str, items: &Vec<TopLevel>) -> (r: (Vec<Absorbed>, Option<(String, bool)>))
        ensures
            strs_of(final(self).uses@) == uses_after(strs_of(old(self).uses@), crate::ast::toplevels_view(items@)),
            strs_of(final(self).items@) == items_after(strs_of(old(self).items@), crate::ast::toplevels_view(items@)),
            r.0@.len() == items@.len(),
            forall|j: int|
                0 <= j < items@.len() ==> absorbed_as(
                    #[trigger] r.0@[j],
                    uses_after(strs_of(old(self).uses@), crate::ast::toplevels_view(items@).take(j)),
                    crate::ast::toplevels_view(items@)[j],
                ),
            strs_of(final(self).history@) == if only_declarations(crate::ast::toplevels_view(items@)) {
                strs_of(old(self).history@).push(input@)
            } else {
                strs_of(old(self).history@)
            },
            final(self).expr_id == old(self).expr_id,
            final(self).show_rust == old(self).show_rust,
            match eval_source(strs_of(final(self).uses@), strs_of(final(self).items@), crate::ast::toplevels_view(items@)) {
                None => r.1 is None,
                Some((src, all)) => r.1 matches Some((s, a)) && s@ == src && a == all,
            },
    {
        let ghost ts = crate::ast::toplevels_view(items@);
        let ghost u0 = strs_of(self.uses@);
        let ghost d0 = strs_of(self.items@);
        let ghost h0 = self.history@;
        let mut out: Vec<Absorbed> = Vec::new();
        let mut any_expr = false;
        let mut i: usize = 0;
        assert(ts.take(0) =~= Seq::<SpecTopLevel>::empty());
        while i < items.len()
            invariant
                i <= items.len(),
                ts == crate::ast::toplevels_view(items@),
                strs_of(self.uses@) == uses_after(u0, ts.take(i as int)),
                strs_of(self.items@) == items_after(d0, ts.take(i as int)),
                self.history@ == h0,
                self.expr_id == old(self).expr_id,
                self.show_rust == old(self).show_rust,
                out@.len() == i,
                forall|j: int| 0 <= j < i ==> absorbed_as(#[trigger] out@[j], uses_after(u0, ts.take(j)), ts[j]),
                any_expr == exists|j: int| 0 <= j < i && kind_of(#[trigger] ts[j]) == InputKind::Expression,
            decreases items.len() - i,
        {
            assert(ts.take(i + 1).drop_last() =~= ts.take(i as int));
            assert(ts.take(i + 1).last() == ts[i as int]);
            let is_expr = classify(&items[i]) == InputKind::Expression;
            let a = self.absorb(&items[i]);
            any_expr = any_expr || is_expr;
            out.push(a);
            i += 1;
        }
        assert(ts.take(items.len() as int) =~= ts);
        if items.len() > 0 && !any_expr {
            self.remember(input);
        }
        let prog = self.expression_program(items);
        (out, prog)
    }
}

} // verus!
