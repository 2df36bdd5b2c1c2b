//! Terms of the graph-reduction engine, as the generated rules hold them,
//! and the packing of long argument spines under the engine's arity ceiling.
use vstd::prelude::*;
use vstd::string::StringExecFns;

verus! {

broadcast use vstd::std_specs::vec::axiom_vec_index_decreases;

/// Spines of this many arguments or more are packed into one container node.
pub const ARITY_CEILING: usize = 14;

/// A term of the engine's rule language.
#[derive(Debug)]
pub enum Term {
    Var { name: String },
    Lam { name: String, body: Box<Term> },
    App { func: Box<Term>, argm: Box<Term> },
    Ctr { name: String, args: Vec<Term> },
    Num { numb: u64 },
}

/// Mathematical form of a [`Term`].
pub enum TermV {
    Var(Seq<char>),
    Lam(Seq<char>, Box<TermV>),
    App(Box<TermV>, Box<TermV>),
    Ctr(Seq<char>, Seq<TermV>),
    Num(u64),
}

/// A rewrite rule of the engine: a constructor pattern and its replacement.
#[derive(Debug)]
pub struct Rule {
    pub lhs: Term,
    pub rhs: Term,
}

/// Mathematical form of a [`Rule`].
pub struct RuleV {
    pub lhs: TermV,
    pub rhs: TermV,
}

impl Term {
    /// The mathematical form of the term.
    pub open spec fn model(&self) -> TermV
        decreases self,
    {
        match self {
            Term::Var { name } => TermV::Var(name@),
            Term::Lam { name, body } => TermV::Lam(name@, Box::new(body.model())),
            Term::App { func, argm } => TermV::App(Box::new(func.model()), Box::new(argm.model())),
            Term::Ctr { name, args } => TermV::Ctr(
                name@,
                Seq::new(
                    args.len() as nat,
                    |i: int| if 0 <= i < args.len() { args[i].model() } else { TermV::Num(0) },
                ),
            ),
            Term::Num { numb } => TermV::Num(*numb),
        }
    }

    /// A copy of the term.
    pub fn duplicate(&self) -> (r: Term)
        ensures
            r.model() == self.model(),
        decreases self,
    {
        match self {
            Term::Var { name } => Term::Var { name: name.clone() },
            Term::Lam { name, body } => Term::Lam { name: name.clone(), body: Box::new(body.duplicate()) },
            Term::App { func, argm } => Term::App {
                func: Box::new(func.duplicate()),
                argm: Box::new(argm.duplicate()),
            },
            Term::Ctr { name, args } => {
                let copied = duplicate_all(args);
                let copied_name = name.clone();
                proof {
                    lemma_ctr_model(copied_name, copied);
                    lemma_ctr_model(*name, *args);
                }
                Term::Ctr { name: copied_name, args: copied }
            },
            Term::Num { numb } => Term::Num { numb: *numb },
        }
    }
}

/// The mathematical form of a constructor node.
pub proof fn lemma_ctr_model(name: String, args: Vec<Term>)
    ensures
        (Term::Ctr { name, args }).model() == TermV::Ctr(name@, models(args@)),
{
    let t = Term::Ctr { name, args };
    assert(t.model()->Ctr_1 =~= models(args@));
}

impl Rule {
    pub open spec fn model(&self) -> RuleV {
        RuleV { lhs: self.lhs.model(), rhs: self.rhs.model() }
    }
}

/// Mathematical forms of a sequence of terms.
pub open spec fn models(s: Seq<Term>) -> Seq<TermV> {
    Seq::new(s.len(), |i: int| s[i].model())
}

/// Mathematical forms of a sequence of rules.
pub open spec fn rule_models(s: Seq<Rule>) -> Seq<RuleV> {
    Seq::new(s.len(), |i: int| s[i].model())
}

/// Copies every term of a list.
pub fn duplicate_all(args: &Vec<Term>) -> (r: Vec<Term>)
    ensures
        models(r@) == models(args@),
    decreases args,
{
    let mut out: Vec<Term> = Vec::new();
    let mut i: usize = 0;
    while i < args.len()
        invariant
            i <= args.len(),
            out@.len() == i,
            forall|j: int| 0 <= j < i ==> (#[trigger] out@[j]).model() == args@[j].model(),
        decreases args.len() - i,
    {
        assert(decreases_to!(args => args[i as int]));
        out.push(args[i].duplicate());
        i = i + 1;
    }
    assert(models(out@) =~= models(args@));
    out
}

/// A constructor node.
pub fn mk_ctr(name: String, args: Vec<Term>) -> (r: Term)
    ensures
        r.model() == TermV::Ctr(name@, models(args@)),
{
    proof { lemma_ctr_model(name, args); }
    Term::Ctr { name, args }
}

/// A constructor node without arguments.
pub fn mk_single_ctr(name: String) -> (r: Term)
    ensures
        r.model() == TermV::Ctr(name@, Seq::empty()),
{
    let r = mk_ctr(name, Vec::new());
    assert(models(Seq::<Term>::empty()) =~= Seq::empty());
    r
}

/// A variable.
pub fn mk_var(name: &str) -> (r: Term)
    ensures
        r.model() == TermV::Var(name@),
{
    Term::Var { name: String::from_str(name) }
}

/// A number literal.
pub fn mk_u60(numb: u64) -> (r: Term)
    ensures
        r.model() == TermV::Num(numb),
{
    Term::Num { numb }
}

/// A native binder.
pub fn lam(name: &str, body: Term) -> (r: Term)
    ensures
        r.model() == TermV::Lam(name@, Box::new(body.model())),
{
    Term::Lam { name: String::from_str(name), body: Box::new(body) }
}

/// A native application.
pub fn app(func: Term, argm: Term) -> (r: Term)
    ensures
        r.model() == TermV::App(Box::new(func.model()), Box::new(argm.model())),
{
    Term::App { func: Box::new(func), argm: Box::new(argm) }
}

/// The decimal digit character for `d`.
pub open spec fn digit_char(d: nat) -> char {
    if d == 0 { '0' } else if d == 1 { '1' } else if d == 2 { '2' } else if d == 3 { '3' }
    else if d == 4 { '4' } else if d == 5 { '5' } else if d == 6 { '6' } else if d == 7 { '7' }
    else if d == 8 { '8' } else { '9' }
}

/// The decimal rendering of `n`.
pub open spec fn decimal(n: nat) -> Seq<char>
    decreases n,
{
    if n < 10 {
        seq![digit_char(n)]
    } else {
        decimal(n / 10).push(digit_char(n % 10))
    }
}

fn digit_str(d: u64) -> (r: &'static str)
    requires
        d < 10,
    ensures
        r@ == seq![digit_char(d as nat)],
{
    proof {
        reveal_strlit("0"); reveal_strlit("1"); reveal_strlit("2"); reveal_strlit("3");
        reveal_strlit("4"); reveal_strlit("5"); reveal_strlit("6"); reveal_strlit("7");
        reveal_strlit("8"); reveal_strlit("9");
    }
    if d == 0 { "0" } else if d == 1 { "1" } else if d == 2 { "2" } else if d == 3 { "3" }
    else if d == 4 { "4" } else if d == 5 { "5" } else if d == 6 { "6" } else if d == 7 { "7" }
    else if d == 8 { "8" } else { "9" }
}

/// Appends the decimal rendering of `n` to `s`.
pub fn push_decimal(s: &mut String, n: u64)
    ensures
        final(s)@ == old(s)@ + decimal(n as nat),
    decreases n,
{
    if n < 10 {
        s.append(digit_str(n));
    } else {
        push_decimal(s, n / 10);
        s.append(digit_str(n % 10));
        assert(decimal(n as nat) == decimal((n / 10) as nat).push(digit_char((n % 10) as nat)));
        assert(final(s)@ =~= old(s)@ + decimal(n as nat));
    }
}

/// `prefix` followed by the decimal rendering of `n`.
pub fn numbered(prefix: &str, n: u64) -> (r: String)
    ensures
        r@ == prefix@ + decimal(n as nat),
{
    let mut s = String::from_str(prefix);
    push_decimal(&mut s, n);
    s
}

pub open spec fn container_name(n: nat) -> Seq<char> {
    "Kind.Term.args"@ + decimal(n)
}

/// A spine as the engine receives it: at the ceiling or beyond, the whole
/// spine moves into one container node named after its length.
pub open spec fn lifted(s: Seq<TermV>) -> Seq<TermV> {
    if s.len() >= ARITY_CEILING {
        seq![TermV::Ctr(container_name(s.len()), s)]
    } else {
        s
    }
}

/// The flat spine that a lifted spine stands for.
pub open spec fn unlifted(s: Seq<TermV>) -> Seq<TermV> {
    if is_container_spine(s) {
        s[0]->Ctr_1
    } else {
        s
    }
}

/// The spine is one container node already, which lifting could not tell
/// from a packed spine.
pub open spec fn is_container_spine(s: Seq<TermV>) -> bool {
    &&& s.len() == 1
    &&& s[0] matches TermV::Ctr(name, inner)
    &&& inner.len() >= ARITY_CEILING
    &&& name == container_name(inner.len())
}

/// Packing keeps the direct arity under the ceiling, and unpacking gives back
/// the flat spine.
pub proof fn lemma_lift_round_trip(s: Seq<TermV>)
    requires
        !is_container_spine(s),
    ensures
        lifted(s).len() < ARITY_CEILING,
        s.len() >= ARITY_CEILING ==> lifted(s) == seq![TermV::Ctr(container_name(s.len()), s)],
        unlifted(lifted(s)) == s,
{
}

/// Packs a spine under the arity ceiling.
pub fn lift_spine(spine: Vec<Term>) -> (r: Vec<Term>)
    ensures
        models(r@) == lifted(models(spine@)),
{
    if spine.len() >= ARITY_CEILING {
        proof { reveal_strlit("Kind.Term.args"); }
        let n = spine.len();
        let node = mk_ctr(numbered("Kind.Term.args", n as u64), spine);
        let r = vec![node];
        assert(models(r@) =~= lifted(models(spine@)));
        r
    } else {
        spine
    }
}

/// Recovers the flat spine from a packed one.
pub fn unlift_spine(spine: Vec<Term>) -> (r: Vec<Term>)
    ensures
        models(r@) == unlifted(models(spine@)),
{
    let mut spine = spine;
    if spine.len() == 1 {
        let ghost before = spine@;
        let first = spine.pop().unwrap();
        assert(before == seq![first]);
        assert(models(before) =~= seq![first.model()]);
        match first {
            Term::Ctr { name, args } => {
                proof { lemma_ctr_model(name, args); }
                if args.len() >= ARITY_CEILING {
                    proof { reveal_strlit("Kind.Term.args"); }
                    let expected = numbered("Kind.Term.args", args.len() as u64);
                    if name == expected {
                        assert(is_container_spine(models(before)));
                        return args;
                    }
                    assert(name@ != container_name(args.len() as nat));
                }
                let node = mk_ctr(name, args);
                let r = vec![node];
                assert(models(r@) =~= seq![node.model()]);
                r
            },
            other => {
                let r = vec![other];
                assert(models(r@) =~= seq![other.model()]);
                r
            },
        }
    } else {
        spine
    }
}

} // verus!
