//! The surface tree of a module, as the scope resolver reads it.
use vstd::prelude::*;
use crate::expr::Ident;
use crate::span::Range;
use crate::tags::Operator;

verus! {

/// A name qualified by its namespace, `Type.member`.
#[derive(Debug)]
pub struct QualifiedIdent {
    pub name: String,
    pub range: Range,
}

#[derive(Debug)]
pub enum PatKind {
    Var(Ident),
    Str(String),
    Num(u64),
    Hole,
    List(Vec<Pat>),
    Pair(Box<Pat>, Box<Pat>),
    App(QualifiedIdent, Vec<Pat>),
}

/// A pattern of a rule's left-hand side.
#[derive(Debug)]
pub struct Pat {
    pub data: PatKind,
    pub range: Range,
}

/// A field bound by a case or a destructuring: under its own name, or renamed.
#[derive(Debug)]
pub enum CaseBinding {
    Field(Ident),
    Renamed(Ident, Ident),
}

/// What a `let` or an `ask` binds.
#[derive(Debug)]
pub enum Destruct {
    Destruct(Range, QualifiedIdent, Vec<CaseBinding>),
    Ident(Ident),
}

/// A statement of a `do` block.
#[derive(Debug)]
pub enum Sttm {
    Ask(Destruct, Box<Expr>, Box<Sttm>),
    Let(Destruct, Box<Expr>, Box<Sttm>),
    Expr(Box<Expr>, Box<Sttm>),
    Return(Box<Expr>),
    RetExpr(Box<Expr>),
}

/// One case of a pattern match on a constructor.
#[derive(Debug)]
pub struct Case {
    pub constructor: Ident,
    pub bindings: Vec<CaseBinding>,
    pub value: Expr,
}

/// A pattern match on a value of type `typ`.
#[derive(Debug)]
pub struct Match {
    pub typ: QualifiedIdent,
    pub scrutinizer: Box<Expr>,
    pub cases: Vec<Case>,
    pub motive: Option<Box<Expr>>,
}

/// An argument of a constructor call, by position or by field name.
#[derive(Debug)]
pub enum Binding {
    Positional(Expr),
    Named(Ident, Expr),
}

/// The forms of a surface expression. Literals carry no names.
#[derive(Debug)]
pub enum ExprKind {
    Var(Ident),
    Constr(QualifiedIdent, Vec<Binding>),
    All(Option<Ident>, Box<Expr>, Box<Expr>),
    Lambda(Ident, Option<Box<Expr>>, Box<Expr>, bool),
    App(Box<Expr>, Vec<Expr>),
    Ann(Box<Expr>, Box<Expr>),
    Lit(u64),
    Binary(Operator, Box<Expr>, Box<Expr>),
    Let(Destruct, Box<Expr>, Box<Expr>),
    Sigma(Option<Ident>, Box<Expr>, Box<Expr>),
    Match(Box<Match>),
    Subst(Ident, u64, Box<Expr>),
    Hole,
    Do(QualifiedIdent, Box<Sttm>),
    If(Box<Expr>, Box<Expr>, Box<Expr>),
    Pair(Box<Expr>, Box<Expr>),
    List(Vec<Expr>),
}

#[derive(Debug)]
pub struct Expr {
    pub data: ExprKind,
    pub range: Range,
}

/// A parameter, with its type where it was written.
#[derive(Debug)]
pub struct Argument {
    pub name: Ident,
    pub typ: Option<Expr>,
}

#[derive(Debug)]
pub struct Rule {
    pub name: QualifiedIdent,
    pub pats: Vec<Pat>,
    pub body: Expr,
}

#[derive(Debug)]
pub struct Entry {
    pub name: QualifiedIdent,
    pub args: Vec<Argument>,
    pub typ: Expr,
    pub rules: Vec<Rule>,
}

#[derive(Debug)]
pub struct Constructor {
    pub name: Ident,
    pub args: Vec<Argument>,
    pub typ: Option<Expr>,
}

#[derive(Debug)]
pub struct SumType {
    pub name: QualifiedIdent,
    pub parameters: Vec<Argument>,
    pub indices: Vec<Argument>,
    pub constructors: Vec<Constructor>,
}

#[derive(Debug)]
pub struct Field {
    pub name: Ident,
    pub typ: Expr,
}

#[derive(Debug)]
pub struct RecordType {
    pub name: QualifiedIdent,
    pub parameters: Vec<Argument>,
    pub constructor: Ident,
    pub fields: Vec<Field>,
}

#[derive(Debug)]
pub enum TopLevel {
    SumType(SumType),
    RecordType(RecordType),
    Entry(Entry),
}

/// The top-level items of a module, in order.
#[derive(Debug)]
pub struct Module {
    pub entries: Vec<TopLevel>,
}

} // verus!
