//! The constructor names that the encoder gives each kind of expression.
use vstd::prelude::*;
use vstd::string::StringExecFns;
use crate::term::{decimal, numbered};

verus! {

/// The head of an encoded expression node.
#[derive(Debug)]
pub enum TermTag {
    Var,
    All,
    Lambda,
    App,
    Fun(u64),
    Ctr(u64),
    Let,
    Ann,
    Sub,
    Typ,
    U60,
    Num,
    Binary,
    Hole,
    Hlp,
    HoasF(String),
    HoasQ(String),
}

/// The heads of nodes that the checker evaluates before it inspects them.
#[derive(Debug, Clone, Copy, PartialEq, Eq, Structural)]
pub enum EvalTag {
    EvalOp,
    EvalApp,
    EvalLet,
    EvalAnn,
    EvalSub,
}

/// Binary operators of the language.
#[derive(Debug, Clone, Copy, PartialEq, Eq, Structural)]
pub enum Operator {
    Add, Sub, Mul, Div, Mod, And, Xor, Shl, Shr, Ltn, Lte, Eql, Gte, Gtn, Neq, Or,
}

/// The constructor name of a tag.
pub open spec fn tag_text(t: TermTag) -> Seq<char> {
    match t {
        TermTag::Var => "Kind.Term.var"@,
        TermTag::All => "Kind.Term.all"@,
        TermTag::Lambda => "Kind.Term.lam"@,
        TermTag::App => "Kind.Term.app"@,
        TermTag::Fun(n) => "Kind.Term.fun"@ + decimal(n as nat),
        TermTag::Ctr(n) => "Kind.Term.ctr"@ + decimal(n as nat),
        TermTag::Let => "Kind.Term.let"@,
        TermTag::Ann => "Kind.Term.ann"@,
        TermTag::Sub => "Kind.Term.sub"@,
        TermTag::Typ => "Kind.Term.typ"@,
        TermTag::U60 => "Kind.Term.u60"@,
        TermTag::Num => "Kind.Term.num"@,
        TermTag::Binary => "Kind.Term.op2"@,
        TermTag::Hole => "Kind.Term.hol"@,
        TermTag::Hlp => "Kind.Term.hlp"@,
        TermTag::HoasF(name) => "F$"@ + name@,
        TermTag::HoasQ(name) => "Q$"@ + name@,
    }
}

/// The constructor name of an evaluation tag.
pub open spec fn eval_tag_text(t: EvalTag) -> Seq<char> {
    match t {
        EvalTag::EvalOp => "Kind.Term.eval_op"@,
        EvalTag::EvalApp => "Kind.Term.eval_app"@,
        EvalTag::EvalLet => "Kind.Term.eval_let"@,
        EvalTag::EvalAnn => "Kind.Term.eval_ann"@,
        EvalTag::EvalSub => "Kind.Term.eval_sub"@,
    }
}

/// The head that the encoder writes for `t`: with `quote`, the nodes that
/// compute (operators, applications, lets, annotations, substitutions) get
/// their evaluating form.
pub open spec fn head_text(quote: bool, t: TermTag) -> Seq<char> {
    if !quote {
        tag_text(t)
    } else {
        match t {
            TermTag::Binary => eval_tag_text(EvalTag::EvalOp),
            TermTag::App => eval_tag_text(EvalTag::EvalApp),
            TermTag::Let => eval_tag_text(EvalTag::EvalLet),
            TermTag::Ann => eval_tag_text(EvalTag::EvalAnn),
            TermTag::Sub => eval_tag_text(EvalTag::EvalSub),
            other => tag_text(other),
        }
    }
}

pub open spec fn operator_text(op: Operator) -> Seq<char> {
    match op {
        Operator::Add => "Kind.Operator.add"@,
        Operator::Sub => "Kind.Operator.sub"@,
        Operator::Mul => "Kind.Operator.mul"@,
        Operator::Div => "Kind.Operator.div"@,
        Operator::Mod => "Kind.Operator.mod"@,
        Operator::And => "Kind.Operator.and"@,
        Operator::Xor => "Kind.Operator.xor"@,
        Operator::Shl => "Kind.Operator.shl"@,
        Operator::Shr => "Kind.Operator.shr"@,
        Operator::Ltn => "Kind.Operator.ltn"@,
        Operator::Lte => "Kind.Operator.lte"@,
        Operator::Eql => "Kind.Operator.eql"@,
        Operator::Gte => "Kind.Operator.gte"@,
        Operator::Gtn => "Kind.Operator.gtn"@,
        Operator::Neq => "Kind.Operator.neq"@,
        Operator::Or => "Kind.Operator.or"@,
    }
}

impl TermTag {
    /// The constructor name of the tag.
    pub fn text(&self) -> (r: String)
        ensures
            r@ == tag_text(*self),
    {
        proof {
            reveal_strlit("Kind.Term.var"); reveal_strlit("Kind.Term.all");
            reveal_strlit("Kind.Term.lam"); reveal_strlit("Kind.Term.app");
            reveal_strlit("Kind.Term.fun"); reveal_strlit("Kind.Term.ctr");
            reveal_strlit("Kind.Term.let"); reveal_strlit("Kind.Term.ann");
            reveal_strlit("Kind.Term.sub"); reveal_strlit("Kind.Term.typ");
            reveal_strlit("Kind.Term.u60"); reveal_strlit("Kind.Term.num");
            reveal_strlit("Kind.Term.op2"); reveal_strlit("Kind.Term.hol");
            reveal_strlit("Kind.Term.hlp"); reveal_strlit("F$"); reveal_strlit("Q$");
        }
        match self {
            TermTag::Var => String::from_str("Kind.Term.var"),
            TermTag::All => String::from_str("Kind.Term.all"),
            TermTag::Lambda => String::from_str("Kind.Term.lam"),
            TermTag::App => String::from_str("Kind.Term.app"),
            TermTag::Fun(n) => numbered("Kind.Term.fun", *n),
            TermTag::Ctr(n) => numbered("Kind.Term.ctr", *n),
            TermTag::Let => String::from_str("Kind.Term.let"),
            TermTag::Ann => String::from_str("Kind.Term.ann"),
            TermTag::Sub => String::from_str("Kind.Term.sub"),
            TermTag::Typ => String::from_str("Kind.Term.typ"),
            TermTag::U60 => String::from_str("Kind.Term.u60"),
            TermTag::Num => String::from_str("Kind.Term.num"),
            TermTag::Binary => String::from_str("Kind.Term.op2"),
            TermTag::Hole => String::from_str("Kind.Term.hol"),
            TermTag::Hlp => String::from_str("Kind.Term.hlp"),
            TermTag::HoasF(name) => String::from_str("F$").concat(name.as_str()),
            TermTag::HoasQ(name) => String::from_str("Q$").concat(name.as_str()),
        }
    }
}

impl EvalTag {
    /// The constructor name of the tag.
    pub fn text(&self) -> (r: String)
        ensures
            r@ == eval_tag_text(*self),
    {
        proof {
            reveal_strlit("Kind.Term.eval_op"); reveal_strlit("Kind.Term.eval_app");
            reveal_strlit("Kind.Term.eval_let"); reveal_strlit("Kind.Term.eval_ann");
            reveal_strlit("Kind.Term.eval_sub");
        }
        match self {
            EvalTag::EvalOp => String::from_str("Kind.Term.eval_op"),
            EvalTag::EvalApp => String::from_str("Kind.Term.eval_app"),
            EvalTag::EvalLet => String::from_str("Kind.Term.eval_let"),
            EvalTag::EvalAnn => String::from_str("Kind.Term.eval_ann"),
            EvalTag::EvalSub => String::from_str("Kind.Term.eval_sub"),
        }
    }
}

/// The constructor that stands for a binary operator.
pub fn operator_to_constructor(op: Operator) -> (r: String)
    ensures
        r@ == operator_text(op),
{
    proof {
        reveal_strlit("Kind.Operator.add"); reveal_strlit("Kind.Operator.sub");
        reveal_strlit("Kind.Operator.mul"); reveal_strlit("Kind.Operator.div");
        reveal_strlit("Kind.Operator.mod"); reveal_strlit("Kind.Operator.and");
        reveal_strlit("Kind.Operator.xor"); reveal_strlit("Kind.Operator.shl");
        reveal_strlit("Kind.Operator.shr"); reveal_strlit("Kind.Operator.ltn");
        reveal_strlit("Kind.Operator.lte"); reveal_strlit("Kind.Operator.eql");
        reveal_strlit("Kind.Operator.gte"); reveal_strlit("Kind.Operator.gtn");
        reveal_strlit("Kind.Operator.neq"); reveal_strlit("Kind.Operator.or");
    }
    let s = match op {
        Operator::Add => "Kind.Operator.add",
        Operator::Sub => "Kind.Operator.sub",
        Operator::Mul => "Kind.Operator.mul",
        Operator::Div => "Kind.Operator.div",
        Operator::Mod => "Kind.Operator.mod",
        Operator::And => "Kind.Operator.and",
        Operator::Xor => "Kind.Operator.xor",
        Operator::Shl => "Kind.Operator.shl",
        Operator::Shr => "Kind.Operator.shr",
        Operator::Ltn => "Kind.Operator.ltn",
        Operator::Lte => "Kind.Operator.lte",
        Operator::Eql => "Kind.Operator.eql",
        Operator::Gte => "Kind.Operator.gte",
        Operator::Gtn => "Kind.Operator.gtn",
        Operator::Neq => "Kind.Operator.neq",
        Operator::Or => "Kind.Operator.or",
    };
    String::from_str(s)
}

/// The head for `head`, in its evaluating form where `quote` asks for it.
pub fn eval_ctr(quote: bool, head: TermTag) -> (r: String)
    ensures
        r@ == head_text(quote, head),
{
    if !quote {
        head.text()
    } else {
        match head {
            TermTag::Binary => EvalTag::EvalOp.text(),
            TermTag::App => EvalTag::EvalApp.text(),
            TermTag::Let => EvalTag::EvalLet.text(),
            TermTag::Ann => EvalTag::EvalAnn.text(),
            TermTag::Sub => EvalTag::EvalSub.text(),
            other => other.text(),
        }
    }
}

} // verus!
