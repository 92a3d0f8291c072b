//! The syntax tree that the parser builds and the code generator prints,
//! with a mathematical model (`Spec*` types) that the contracts speak of.
use vstd::prelude::*;

verus! {

// ── Executable syntax tree ──────────────────────────────────────────────

#[derive(Debug)]
pub struct Program {
    pub items: Vec<TopLevel>,
}

#[derive(Debug)]
pub enum TopLevel {
    Use(UsePath),
    ExternCrate(String),
    Def(Def),
    Defn(Defn),
    DefStruct(DefStruct),
    DefEnum(DefEnum),
    DefTrait(DefTrait),
    Impl(Impl),
    Mod(Mod),
    Attr(String, Box<TopLevel>),
    Expr(Expr),
}

#[derive(Debug, Clone)]
pub struct UsePath {
    pub path: String,
}

#[derive(Debug)]
pub struct Def {
    pub is_pub: bool,
    pub mutable: bool,
    pub name: String,
    pub type_ann: Option<String>,
    pub value: Expr,
    pub is_const: bool,
}

#[derive(Debug)]
pub struct Defn {
    pub is_pub: bool,
    pub name: String,
    pub generics: Vec<String>,
    pub params: Vec<Param>,
    pub ret_type: Option<String>,
    pub body: Vec<Expr>,
    pub is_async: bool,
}

#[derive(Debug, Clone)]
pub struct Param {
    pub name: String,
    pub type_ann: Option<String>,
    pub is_ref: bool,
    pub is_mut_ref: bool,
    pub is_mut: bool,
}

#[derive(Debug, Clone)]
pub struct DefStruct {
    pub is_pub: bool,
    pub name: String,
    pub generics: Vec<String>,
    pub fields: Vec<StructField>,
    pub derives: Vec<String>,
}

#[derive(Debug, Clone)]
pub struct StructField {
    pub is_pub: bool,
    pub name: String,
    pub type_ann: String,
}

#[derive(Debug, Clone)]
pub struct DefEnum {
    pub is_pub: bool,
    pub name: String,
    pub generics: Vec<String>,
    pub variants: Vec<EnumVariant>,
    pub derives: Vec<String>,
}

#[derive(Debug, Clone)]
pub struct EnumVariant {
    pub name: String,
    pub fields: VariantFields,
}

#[derive(Debug, Clone)]
pub enum VariantFields {
    Unit,
    Tuple(Vec<String>),
    Struct(Vec<StructField>),
}

#[derive(Debug)]
pub struct DefTrait {
    pub is_pub: bool,
    pub name: String,
    pub generics: Vec<String>,
    pub methods: Vec<Defn>,
}

#[derive(Debug)]
pub struct Impl {
    pub typ_name: String,
    pub generics: Vec<String>,
    pub trait_name: Option<String>,
    pub methods: Vec<Defn>,
}

#[derive(Debug)]
pub struct Mod {
    pub is_pub: bool,
    pub name: String,
    pub items: Vec<TopLevel>,
}

/// An expression. A float literal holds the decimal text of its value
/// (what `f64`'s `Display` writes for it).
#[derive(Debug)]
pub enum Expr {
    Integer(i64),
    Float(String),
    Str(String),
    Bool(bool),
    Char(char),
    Nil,
    Symbol(String),
    Keyword(String),
    Vec(Vec<Expr>),
    HashMap(Vec<(Expr, Expr)>),
    Tuple(Vec<Expr>),
    Let { bindings: Vec<LetBinding>, body: Vec<Expr> },
    If { cond: Box<Expr>, then: Box<Expr>, else_: Option<Box<Expr>> },
    Match { expr: Box<Expr>, arms: Vec<MatchArm> },
    Do(Vec<Expr>),
    Block(Vec<Expr>),
    Loop { bindings: Vec<LetBinding>, body: Vec<Expr> },
    Recur(Vec<Expr>),
    For { binding: String, iter: Box<Expr>, body: Vec<Expr> },
    While { cond: Box<Expr>, body: Vec<Expr> },
    Fn { params: Vec<Param>, ret_type: Option<String>, body: Vec<Expr> },
    Call { func: Box<Expr>, args: Vec<Expr> },
    MacroCall { name: String, args: Vec<Expr> },
    MethodCall { object: Box<Expr>, method: String, args: Vec<Expr> },
    FieldAccess { object: Box<Expr>, field: String },
    StaticCall { typ_name: String, method: String, args: Vec<Expr> },
    StructInit { name: String, fields: Vec<(String, Expr)> },
    BinOp { op: BinOpKind, left: Box<Expr>, right: Box<Expr> },
    UnaryOp { op: UnaryOpKind, operand: Box<Expr> },
    Assign { target: Box<Expr>, value: Box<Expr> },
    Ref(Box<Expr>),
    RefMut(Box<Expr>),
    Deref(Box<Expr>),
    As { expr: Box<Expr>, typ_name: String },
    Range { start: Box<Expr>, end: Box<Expr>, inclusive: bool },
    Return(Option<Box<Expr>>),
    Break(Option<Box<Expr>>),
    Continue,
    Await(Box<Expr>),
    Try(Box<Expr>),
    RawRust(String),
    Index { object: Box<Expr>, index: Box<Expr> },
}

#[derive(Debug)]
pub struct LetBinding {
    pub name: String,
    pub mutable: bool,
    pub type_ann: Option<String>,
    pub value: Expr,
}

#[derive(Debug)]
pub struct MatchArm {
    pub pattern: Pattern,
    pub guard: Option<Box<Expr>>,
    pub body: Expr,
}

#[derive(Debug)]
pub enum Pattern {
    Wildcard,
    Literal(Expr),
    Binding(String),
    Tuple(Vec<Pattern>),
    Struct { name: String, fields: Vec<(String, Pattern)> },
    TupleStruct { name: String, fields: Vec<Pattern> },
    Ref(Box<Pattern>),
    Or(Vec<Pattern>),
}

#[derive(Debug, Clone, Copy, PartialEq, Eq, Structural)]
pub enum BinOpKind {
    Add,
    Sub,
    Mul,
    Div,
    Rem,
    Eq,
    NotEq,
    Lt,
    Gt,
    LtEq,
    GtEq,
    And,
    Or,
    BitAnd,
    BitOr,
    BitXor,
    Shl,
    Shr,
}

#[derive(Debug, Clone, Copy, PartialEq, Eq, Structural)]
pub enum UnaryOpKind {
    Not,
    Neg,
}

/// The Rust spelling of a binary operator.
pub open spec fn binop_text(op: BinOpKind) -> Seq<char> {
    match op {
        BinOpKind::Add => "+"@,
        BinOpKind::Sub => "-"@,
        BinOpKind::Mul => "*"@,
        BinOpKind::Div => "/"@,
        BinOpKind::Rem => "%"@,
        BinOpKind::Eq => "=="@,
        BinOpKind::NotEq => "!="@,
        BinOpKind::Lt => "<"@,
        BinOpKind::Gt => ">"@,
        BinOpKind::LtEq => "<="@,
        BinOpKind::GtEq => ">="@,
        BinOpKind::And => "&&"@,
        BinOpKind::Or => "||"@,
        BinOpKind::BitAnd => "&"@,
        BinOpKind::BitOr => "|"@,
        BinOpKind::BitXor => "^"@,
        BinOpKind::Shl => "<<"@,
        BinOpKind::Shr => ">>"@,
    }
}

/// The Rust spelling of a unary operator.
pub open spec fn unop_text(op: UnaryOpKind) -> Seq<char> {
    match op {
        UnaryOpKind::Not => "!"@,
        UnaryOpKind::Neg => "-"@,
    }
}

impl BinOpKind {
    /// The Rust operator this kind stands for.
    pub fn to_rust(&self) -> (r: &'static str)
        ensures
            r@ == binop_text(*self),
    {
        match self {
            BinOpKind::Add => "+",
            BinOpKind::Sub => "-",
            BinOpKind::Mul => "*",
            BinOpKind::Div => "/",
            BinOpKind::Rem => "%",
            BinOpKind::Eq => "==",
            BinOpKind::NotEq => "!=",
            BinOpKind::Lt => "<",
            BinOpKind::Gt => ">",
            BinOpKind::LtEq => "<=",
            BinOpKind::GtEq => ">=",
            BinOpKind::And => "&&",
            BinOpKind::Or => "||",
            BinOpKind::BitAnd => "&",
            BinOpKind::BitOr => "|",
            BinOpKind::BitXor => "^",
            BinOpKind::Shl => "<<",
            BinOpKind::Shr => ">>",
        }
    }
}

impl UnaryOpKind {
    /// The Rust operator this kind stands for.
    pub fn to_rust(&self) -> (r: &'static str)
        ensures
            r@ == unop_text(*self),
    {
        match self {
            UnaryOpKind::Not => "!",
            UnaryOpKind::Neg => "-",
        }
    }
}

// ── Model of the syntax tree ────────────────────────────────────────────

pub struct SpecProgram {
    pub items: Seq<SpecTopLevel>,
}

pub enum SpecTopLevel {
    Use(Seq<char>),
    ExternCrate(Seq<char>),
    Def(SpecDef),
    Defn(SpecDefn),
    DefStruct(SpecDefStruct),
    DefEnum(SpecDefEnum),
    DefTrait(SpecDefTrait),
    Impl(SpecImplBlock),
    Mod(SpecMod),
    Attr(Seq<char>, Box<SpecTopLevel>),
    Expr(SpecExpr),
}

pub struct SpecDef {
    pub is_pub: bool,
    pub mutable: bool,
    pub name: Seq<char>,
    pub type_ann: Option<Seq<char>>,
    pub value: SpecExpr,
    pub is_const: bool,
}

pub struct SpecDefn {
    pub is_pub: bool,
    pub name: Seq<char>,
    pub generics: Seq<Seq<char>>,
    pub params: Seq<SpecParam>,
    pub ret_type: Option<Seq<char>>,
    pub body: Seq<SpecExpr>,
    pub is_async: bool,
}

pub struct SpecParam {
    pub name: Seq<char>,
    pub type_ann: Option<Seq<char>>,
    pub is_ref: bool,
    pub is_mut_ref: bool,
    pub is_mut: bool,
}

pub struct SpecStructField {
    pub is_pub: bool,
    pub name: Seq<char>,
    pub type_ann: Seq<char>,
}

pub struct SpecDefStruct {
    pub is_pub: bool,
    pub name: Seq<char>,
    pub generics: Seq<Seq<char>>,
    pub fields: Seq<SpecStructField>,
    pub derives: Seq<Seq<char>>,
}

pub enum SpecVariantFields {
    Unit,
    Tuple(Seq<Seq<char>>),
    Struct(Seq<SpecStructField>),
}

pub struct SpecEnumVariant {
    pub name: Seq<char>,
    pub fields: SpecVariantFields,
}

pub struct SpecDefEnum {
    pub is_pub: bool,
    pub name: Seq<char>,
    pub generics: Seq<Seq<char>>,
    pub variants: Seq<SpecEnumVariant>,
    pub derives: Seq<Seq<char>>,
}

pub struct SpecDefTrait {
    pub is_pub: bool,
    pub name: Seq<char>,
    pub generics: Seq<Seq<char>>,
    pub methods: Seq<SpecDefn>,
}

pub struct SpecImplBlock {
    pub typ_name: Seq<char>,
    pub generics: Seq<Seq<char>>,
    pub trait_name: Option<Seq<char>>,
    pub methods: Seq<SpecDefn>,
}

pub struct SpecMod {
    pub is_pub: bool,
    pub name: Seq<char>,
    pub items: Seq<SpecTopLevel>,
}

pub enum SpecExpr {
    Integer(int),
    Float(Seq<char>),
    Str(Seq<char>),
    Bool(bool),
    Char(char),
    Nil,
    Symbol(Seq<char>),
    Keyword(Seq<char>),
    Vec(Seq<SpecExpr>),
    HashMap(Seq<(SpecExpr, SpecExpr)>),
    Tuple(Seq<SpecExpr>),
    Let { bindings: Seq<SpecLetBinding>, body: Seq<SpecExpr> },
    If { cond: Box<SpecExpr>, then: Box<SpecExpr>, else_: Option<Box<SpecExpr>> },
    Match { expr: Box<SpecExpr>, arms: Seq<SpecMatchArm> },
    Do(Seq<SpecExpr>),
    Block(Seq<SpecExpr>),
    Loop { bindings: Seq<SpecLetBinding>, body: Seq<SpecExpr> },
    Recur(Seq<SpecExpr>),
    For { binding: Seq<char>, iter: Box<SpecExpr>, body: Seq<SpecExpr> },
    While { cond: Box<SpecExpr>, body: Seq<SpecExpr> },
    Fn { params: Seq<SpecParam>, ret_type: Option<Seq<char>>, body: Seq<SpecExpr> },
    Call { func: Box<SpecExpr>, args: Seq<SpecExpr> },
    MacroCall { name: Seq<char>, args: Seq<SpecExpr> },
    MethodCall { object: Box<SpecExpr>, method: Seq<char>, args: Seq<SpecExpr> },
    FieldAccess { object: Box<SpecExpr>, field: Seq<char> },
    StaticCall { typ_name: Seq<char>, method: Seq<char>, args: Seq<SpecExpr> },
    StructInit { name: Seq<char>, fields: Seq<(Seq<char>, SpecExpr)> },
    BinOp { op: BinOpKind, left: Box<SpecExpr>, right: Box<SpecExpr> },
    UnaryOp { op: UnaryOpKind, operand: Box<SpecExpr> },
    Assign { target: Box<SpecExpr>, value: Box<SpecExpr> },
    Ref(Box<SpecExpr>),
    RefMut(Box<SpecExpr>),
    Deref(Box<SpecExpr>),
    As { expr: Box<SpecExpr>, typ_name: Seq<char> },
    Range { start: Box<SpecExpr>, end: Box<SpecExpr>, inclusive: bool },
    Return(Option<Box<SpecExpr>>),
    Break(Option<Box<SpecExpr>>),
    Continue,
    Await(Box<SpecExpr>),
    Try(Box<SpecExpr>),
    RawRust(Seq<char>),
    Index { object: Box<SpecExpr>, index: Box<SpecExpr> },
}

pub struct SpecLetBinding {
    pub name: Seq<char>,
    pub mutable: bool,
    pub type_ann: Option<Seq<char>>,
    pub value: SpecExpr,
}

pub struct SpecMatchArm {
    pub pattern: SpecPattern,
    pub guard: Option<Box<SpecExpr>>,
    pub body: SpecExpr,
}

pub enum SpecPattern {
    Wildcard,
    Literal(SpecExpr),
    Binding(Seq<char>),
    Tuple(Seq<SpecPattern>),
    Struct { name: Seq<char>, fields: Seq<(Seq<char>, SpecPattern)> },
    TupleStruct { name: Seq<char>, fields: Seq<SpecPattern> },
    Ref(Box<SpecPattern>),
    Or(Seq<SpecPattern>),
}

// ── Views ───────────────────────────────────────────────────────────────

/// The model of an optional string.
pub open spec fn opt_str_view(o: Option<String>) -> Option<Seq<char>> {
    match o {
        Some(s) => Some(s@),
        None => None,
    }
}

/// The model of a list of strings.
pub open spec fn strs_view(v: Seq<String>) -> Seq<Seq<char>> {
    Seq::new(v.len(), |i: int| v[i]@)
}

pub open spec fn param_view(p: Param) -> SpecParam {
    SpecParam {
        name: p.name@,
        type_ann: opt_str_view(p.type_ann),
        is_ref: p.is_ref,
        is_mut_ref: p.is_mut_ref,
        is_mut: p.is_mut,
    }
}

pub open spec fn params_view(v: Seq<Param>) -> Seq<SpecParam> {
    Seq::new(v.len(), |i: int| param_view(v[i]))
}

pub open spec fn field_view(f: StructField) -> SpecStructField {
    SpecStructField { is_pub: f.is_pub, name: f.name@, type_ann: f.type_ann@ }
}

pub open spec fn fields_view(v: Seq<StructField>) -> Seq<SpecStructField> {
    Seq::new(v.len(), |i: int| field_view(v[i]))
}

pub open spec fn expr_view(e: &Expr) -> SpecExpr
    decreases e, 1int,
{
    match e {
        Expr::Integer(n) => SpecExpr::Integer(*n as int),
        Expr::Float(s) => SpecExpr::Float(s@),
        Expr::Str(s) => SpecExpr::Str(s@),
        Expr::Bool(b) => SpecExpr::Bool(*b),
        Expr::Char(c) => SpecExpr::Char(*c),
        Expr::Nil => SpecExpr::Nil,
        Expr::Symbol(s) => SpecExpr::Symbol(s@),
        Expr::Keyword(s) => SpecExpr::Keyword(s@),
        Expr::Vec(v) => SpecExpr::Vec(exprs_view(v@)),
        Expr::HashMap(v) => SpecExpr::HashMap(pairs_view(v@)),
        Expr::Tuple(v) => SpecExpr::Tuple(exprs_view(v@)),
        Expr::Let { bindings, body } => SpecExpr::Let { bindings: bindings_view(bindings@), body: exprs_view(body@) },
        Expr::If { cond, then, else_ } => SpecExpr::If {
            cond: Box::new(expr_view(cond)),
            then: Box::new(expr_view(then)),
            else_: match else_ {
                Some(x) => Some(Box::new(expr_view(x))),
                None => None,
            },
        },
        Expr::Match { expr, arms } => SpecExpr::Match { expr: Box::new(expr_view(expr)), arms: arms_view(arms@) },
        Expr::Do(v) => SpecExpr::Do(exprs_view(v@)),
        Expr::Block(v) => SpecExpr::Block(exprs_view(v@)),
        Expr::Loop { bindings, body } => SpecExpr::Loop { bindings: bindings_view(bindings@), body: exprs_view(body@) },
        Expr::Recur(v) => SpecExpr::Recur(exprs_view(v@)),
        Expr::For { binding, iter, body } => SpecExpr::For {
            binding: binding@,
            iter: Box::new(expr_view(iter)),
            body: exprs_view(body@),
        },
        Expr::While { cond, body } => SpecExpr::While { cond: Box::new(expr_view(cond)), body: exprs_view(body@) },
        Expr::Fn { params, ret_type, body } => SpecExpr::Fn {
            params: params_view(params@),
            ret_type: opt_str_view(*ret_type),
            body: exprs_view(body@),
        },
        Expr::Call { func, args } => SpecExpr::Call { func: Box::new(expr_view(func)), args: exprs_view(args@) },
        Expr::MacroCall { name, args } => SpecExpr::MacroCall { name: name@, args: exprs_view(args@) },
        Expr::MethodCall { object, method, args } => SpecExpr::MethodCall {
            object: Box::new(expr_view(object)),
            method: method@,
            args: exprs_view(args@),
        },
        Expr::FieldAccess { object, field } => SpecExpr::FieldAccess {
            object: Box::new(expr_view(object)),
            field: field@,
        },
        Expr::StaticCall { typ_name, method, args } => SpecExpr::StaticCall {
            typ_name: typ_name@,
            method: method@,
            args: exprs_view(args@),
        },
        Expr::StructInit { name, fields } => SpecExpr::StructInit { name: name@, fields: named_exprs_view(fields@) },
        Expr::BinOp { op, left, right } => SpecExpr::BinOp {
            op: *op,
            left: Box::new(expr_view(left)),
            right: Box::new(expr_view(right)),
        },
        Expr::UnaryOp { op, operand } => SpecExpr::UnaryOp { op: *op, operand: Box::new(expr_view(operand)) },
        Expr::Assign { target, value } => SpecExpr::Assign {
            target: Box::new(expr_view(target)),
            value: Box::new(expr_view(value)),
        },
        Expr::Ref(x) => SpecExpr::Ref(Box::new(expr_view(x))),
        Expr::RefMut(x) => SpecExpr::RefMut(Box::new(expr_view(x))),
        Expr::Deref(x) => SpecExpr::Deref(Box::new(expr_view(x))),
        Expr::As { expr, typ_name } => SpecExpr::As { expr: Box::new(expr_view(expr)), typ_name: typ_name@ },
        Expr::Range { start, end, inclusive } => SpecExpr::Range {
            start: Box::new(expr_view(start)),
            end: Box::new(expr_view(end)),
            inclusive: *inclusive,
        },
        Expr::Return(x) => SpecExpr::Return(
            match x {
                Some(y) => Some(Box::new(expr_view(y))),
                None => None,
            },
        ),
        Expr::Break(x) => SpecExpr::Break(
            match x {
                Some(y) => Some(Box::new(expr_view(y))),
                None => None,
            },
        ),
        Expr::Continue => SpecExpr::Continue,
        Expr::Await(x) => SpecExpr::Await(Box::new(expr_view(x))),
        Expr::Try(x) => SpecExpr::Try(Box::new(expr_view(x))),
        Expr::RawRust(s) => SpecExpr::RawRust(s@),
        Expr::Index { object, index } => SpecExpr::Index {
            object: Box::new(expr_view(object)),
            index: Box::new(expr_view(index)),
        },
    }
}

/// The model of a list of expressions.
pub open spec fn exprs_view(v: Seq<Expr>) -> Seq<SpecExpr>
    decreases v, 0int,
{
    Seq::new(v.len(), |i: int| if 0 <= i < v.len() { expr_view(&v[i]) } else { SpecExpr::Nil })
}

pub open spec fn pairs_view(v: Seq<(Expr, Expr)>) -> Seq<(SpecExpr, SpecExpr)>
    decreases v, 0int,
{
    Seq::new(
        v.len(),
        |i: int| if 0 <= i < v.len() { (expr_view(&v[i].0), expr_view(&v[i].1)) } else { (SpecExpr::Nil, SpecExpr::Nil) },
    )
}

pub open spec fn named_exprs_view(v: Seq<(String, Expr)>) -> Seq<(Seq<char>, SpecExpr)>
    decreases v, 0int,
{
    Seq::new(
        v.len(),
        |i: int| if 0 <= i < v.len() { (v[i].0@, expr_view(&v[i].1)) } else { (Seq::empty(), SpecExpr::Nil) },
    )
}

pub open spec fn binding_view(b: &LetBinding) -> SpecLetBinding
    decreases b, 1int,
{
    SpecLetBinding {
        name: b.name@,
        mutable: b.mutable,
        type_ann: opt_str_view(b.type_ann),
        value: expr_view(&b.value),
    }
}

pub open spec fn bindings_view(v: Seq<LetBinding>) -> Seq<SpecLetBinding>
    decreases v, 0int,
{
    Seq::new(
        v.len(),
        |i: int|
            if 0 <= i < v.len() {
                binding_view(&v[i])
            } else {
                SpecLetBinding { name: Seq::empty(), mutable: false, type_ann: None, value: SpecExpr::Nil }
            },
    )
}

pub open spec fn arm_view(a: &MatchArm) -> SpecMatchArm
    decreases a, 1int,
{
    SpecMatchArm {
        pattern: pattern_view(&a.pattern),
        guard: match a.guard {
            Some(g) => Some(Box::new(expr_view(&g))),
            None => None,
        },
        body: expr_view(&a.body),
    }
}

pub open spec fn arms_view(v: Seq<MatchArm>) -> Seq<SpecMatchArm>
    decreases v, 0int,
{
    Seq::new(
        v.len(),
        |i: int|
            if 0 <= i < v.len() {
                arm_view(&v[i])
            } else {
                SpecMatchArm { pattern: SpecPattern::Wildcard, guard: None, body: SpecExpr::Nil }
            },
    )
}

pub open spec fn pattern_view(p: &Pattern) -> SpecPattern
    decreases p, 1int,
{
    match p {
        Pattern::Wildcard => SpecPattern::Wildcard,
        Pattern::Literal(e) => SpecPattern::Literal(expr_view(e)),
        Pattern::Binding(s) => SpecPattern::Binding(s@),
        Pattern::Tuple(v) => SpecPattern::Tuple(patterns_view(v@)),
        Pattern::Struct { name, fields } => SpecPattern::Struct { name: name@, fields: named_patterns_view(fields@) },
        Pattern::TupleStruct { name, fields } => SpecPattern::TupleStruct { name: name@, fields: patterns_view(fields@) },
        Pattern::Ref(x) => SpecPattern::Ref(Box::new(pattern_view(x))),
        Pattern::Or(v) => SpecPattern::Or(patterns_view(v@)),
    }
}

pub open spec fn patterns_view(v: Seq<Pattern>) -> Seq<SpecPattern>
    decreases v, 0int,
{
    Seq::new(v.len(), |i: int| if 0 <= i < v.len() { pattern_view(&v[i]) } else { SpecPattern::Wildcard })
}

pub open spec fn named_patterns_view(v: Seq<(String, Pattern)>) -> Seq<(Seq<char>, SpecPattern)>
    decreases v, 0int,
{
    Seq::new(
        v.len(),
        |i: int| if 0 <= i < v.len() { (v[i].0@, pattern_view(&v[i].1)) } else { (Seq::empty(), SpecPattern::Wildcard) },
    )
}

pub open spec fn defn_view(f: &Defn) -> SpecDefn {
    SpecDefn {
        is_pub: f.is_pub,
        name: f.name@,
        generics: strs_view(f.generics@),
        params: params_view(f.params@),
        ret_type: opt_str_view(f.ret_type),
        body: exprs_view(f.body@),
        is_async: f.is_async,
    }
}

pub open spec fn defns_view(v: Seq<Defn>) -> Seq<SpecDefn> {
    Seq::new(v.len(), |i: int| defn_view(&v[i]))
}

pub open spec fn variant_view(v: &EnumVariant) -> SpecEnumVariant {
    SpecEnumVariant {
        name: v.name@,
        fields: match v.fields {
            VariantFields::Unit => SpecVariantFields::Unit,
            VariantFields::Tuple(ts) => SpecVariantFields::Tuple(strs_view(ts@)),
            VariantFields::Struct(fs) => SpecVariantFields::Struct(fields_view(fs@)),
        },
    }
}

pub open spec fn variants_view(v: Seq<EnumVariant>) -> Seq<SpecEnumVariant> {
    Seq::new(v.len(), |i: int| variant_view(&v[i]))
}

/// The model of a top-level `def`.
pub open spec fn def_view(d: &Def) -> SpecDef {
    SpecDef {
        is_pub: d.is_pub,
        mutable: d.mutable,
        name: d.name@,
        type_ann: opt_str_view(d.type_ann),
        value: expr_view(&d.value),
        is_const: d.is_const,
    }
}

/// The model of a struct definition.
pub open spec fn struct_view(s: &DefStruct) -> SpecDefStruct {
    SpecDefStruct {
        is_pub: s.is_pub,
        name: s.name@,
        generics: strs_view(s.generics@),
        fields: fields_view(s.fields@),
        derives: strs_view(s.derives@),
    }
}

/// The model of an enum definition.
pub open spec fn enum_view(e: &DefEnum) -> SpecDefEnum {
    SpecDefEnum {
        is_pub: e.is_pub,
        name: e.name@,
        generics: strs_view(e.generics@),
        variants: variants_view(e.variants@),
        derives: strs_view(e.derives@),
    }
}

/// The model of a trait definition.
pub open spec fn trait_view(tr: &DefTrait) -> SpecDefTrait {
    SpecDefTrait {
        is_pub: tr.is_pub,
        name: tr.name@,
        generics: strs_view(tr.generics@),
        methods: defns_view(tr.methods@),
    }
}

/// The model of an `impl` block.
pub open spec fn impl_view(i: &Impl) -> SpecImplBlock {
    SpecImplBlock {
        typ_name: i.typ_name@,
        generics: strs_view(i.generics@),
        trait_name: opt_str_view(i.trait_name),
        methods: defns_view(i.methods@),
    }
}

/// The model of a module.
pub open spec fn mod_view(m: &Mod) -> SpecMod {
    SpecMod { is_pub: m.is_pub, name: m.name@, items: toplevels_view(m.items@) }
}

pub open spec fn toplevel_view(t: &TopLevel) -> SpecTopLevel
    decreases t, 1int,
{
    match t {
        TopLevel::Use(u) => SpecTopLevel::Use(u.path@),
        TopLevel::ExternCrate(s) => SpecTopLevel::ExternCrate(s@),
        TopLevel::Def(d) => SpecTopLevel::Def(
            SpecDef {
                is_pub: d.is_pub,
                mutable: d.mutable,
                name: d.name@,
                type_ann: opt_str_view(d.type_ann),
                value: expr_view(&d.value),
                is_const: d.is_const,
            },
        ),
        TopLevel::Defn(f) => SpecTopLevel::Defn(defn_view(f)),
        TopLevel::DefStruct(s) => SpecTopLevel::DefStruct(
            SpecDefStruct {
                is_pub: s.is_pub,
                name: s.name@,
                generics: strs_view(s.generics@),
                fields: fields_view(s.fields@),
                derives: strs_view(s.derives@),
            },
        ),
        TopLevel::DefEnum(e) => SpecTopLevel::DefEnum(
            SpecDefEnum {
                is_pub: e.is_pub,
                name: e.name@,
                generics: strs_view(e.generics@),
                variants: variants_view(e.variants@),
                derives: strs_view(e.derives@),
            },
        ),
        TopLevel::DefTrait(tr) => SpecTopLevel::DefTrait(
            SpecDefTrait {
                is_pub: tr.is_pub,
                name: tr.name@,
                generics: strs_view(tr.generics@),
                methods: defns_view(tr.methods@),
            },
        ),
        TopLevel::Impl(i) => SpecTopLevel::Impl(
            SpecImplBlock {
                typ_name: i.typ_name@,
                generics: strs_view(i.generics@),
                trait_name: opt_str_view(i.trait_name),
                methods: defns_view(i.methods@),
            },
        ),
        TopLevel::Mod(m) => SpecTopLevel::Mod(
            SpecMod {
                is_pub: m.is_pub,
                name: m.name@,
                items: toplevels_view(m.items@),
            },
        ),
        TopLevel::Attr(a, inner) => SpecTopLevel::Attr(a@, Box::new(toplevel_view(inner))),
        TopLevel::Expr(e) => SpecTopLevel::Expr(expr_view(e)),
    }
}

pub open spec fn toplevels_view(v: Seq<TopLevel>) -> Seq<SpecTopLevel>
    decreases v, 0int,
{
    Seq::new(v.len(), |i: int| if 0 <= i < v.len() { toplevel_view(&v[i]) } else { SpecTopLevel::Use(Seq::empty()) })
}

impl View for Expr {
    type V = SpecExpr;

    open spec fn view(&self) -> SpecExpr {
        expr_view(self)
    }
}

impl View for Pattern {
    type V = SpecPattern;

    open spec fn view(&self) -> SpecPattern {
        pattern_view(self)
    }
}

impl View for TopLevel {
    type V = SpecTopLevel;

    open spec fn view(&self) -> SpecTopLevel {
        toplevel_view(self)
    }
}

impl View for Program {
    type V = SpecProgram;

    open spec fn view(&self) -> SpecProgram {
        SpecProgram { items: toplevels_view(self.items@) }
    }
}

} // verus!
