//! The elaborated program that the encoder compiles: definitions with typed
//! parameters and pattern-matching rules over core expressions.
use vstd::prelude::*;
use crate::span::{Range, Span};
use crate::tags::Operator;

verus! {

/// A name with the source range where it stands.
#[derive(Debug)]
pub struct Ident {
    pub name: String,
    pub range: Range,
}

/// The forms of a core expression.
#[derive(Debug)]
pub enum ExprKind {
    /// The universe.
    Typ,
    /// The type of machine words.
    U60,
    Var(Ident),
    /// A dependent function type; an unnamed binder is written `~`.
    All(Option<Ident>, Box<Expr>, Box<Expr>),
    Lambda(Ident, Box<Expr>),
    App(Box<Expr>, Vec<Expr>),
    /// A constructor applied to all its arguments.
    Ctr(Ident, Vec<Expr>),
    /// A function applied to all its arguments.
    Fun(Ident, Vec<Expr>),
    Let(Ident, Box<Expr>, Box<Expr>),
    Ann(Box<Expr>, Box<Expr>),
    /// A substitution marker: name, index, reduction count, expression.
    Sub(Ident, u64, u64, Box<Expr>),
    Num(u64),
    Binary(Operator, Box<Expr>, Box<Expr>),
    Hole(u64),
    Hlp(Ident),
    Str(String),
    /// Left by an earlier phase that failed; never compiled.
    Error,
}

/// An expression and its source span.
#[derive(Debug)]
pub struct Expr {
    pub data: ExprKind,
    pub span: Span,
}

/// A typed parameter of a definition.
#[derive(Debug)]
pub struct Argument {
    pub name: Ident,
    pub tipo: Expr,
    pub erased: bool,
    pub span: Span,
}

/// One pattern-matching equation of a definition.
#[derive(Debug)]
pub struct Rule {
    pub name: Ident,
    pub pats: Vec<Expr>,
    pub body: Expr,
    pub span: Span,
}

/// A definition: parameters, return type and rules.
#[derive(Debug)]
pub struct Entry {
    pub name: Ident,
    pub args: Vec<Argument>,
    pub tipo: Expr,
    pub rules: Vec<Rule>,
    pub span: Span,
}

/// The definitions of a program, in order, under distinct names.
#[derive(Debug)]
pub struct Book {
    pub entries: Vec<Entry>,
}

} // verus!
