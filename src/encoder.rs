//! The dual term encoder: one traversal that writes an expression either in
//! its introspectable form, a tagged constructor for every node, or in its
//! executable form, where functions reduce natively.
use vstd::prelude::*;
use vstd::std_specs::iter::IteratorSpec;
use vstd::string::StringExecFns;
use crate::expr::{Expr, ExprKind, Ident};
use crate::names::{id_of, name_id};
use crate::span::{encode_span, Span};
use crate::tags::{eval_ctr, head_text, operator_text, operator_to_constructor, TermTag};
use crate::term::{
    app, lam, lift_spine, lifted, mk_ctr, mk_single_ctr, mk_u60, mk_var, models, Term, TermV,
};

verus! {

broadcast use vstd::std_specs::vec::axiom_vec_index_decreases,
    vstd::std_specs::vec::axiom_vec_decreases_to_view,
    vstd::seq::axiom_seq_index_decreases,
    vstd::seq::axiom_seq_subrange_decreases;

/// A constructor node whose spine is packed under the arity ceiling.
pub open spec fn quoted(head: Seq<char>, spine: Seq<TermV>) -> TermV {
    TermV::Ctr(head, lifted(spine))
}

/// The number that stands for a span.
pub open spec fn span_num(s: Span) -> TermV {
    TermV::Num(s.code() as u64)
}

/// The name of a definition as a constructor without arguments.
pub open spec fn name_ctr(n: Seq<char>) -> TermV {
    TermV::Ctr(n + "."@, Seq::empty())
}

/// A variable that carries the place where it was bound.
pub open spec fn origin(id: Ident) -> TermV {
    quoted("Kind.Term.set_origin"@, seq![span_num(Span::Locatable(id.range)), TermV::Var(id.name@)])
}

pub open spec fn binder(n: Seq<char>, body: TermV) -> TermV {
    TermV::Lam(n, Box::new(body))
}

/// The name of a function type's binder.
pub open spec fn binder_name(name: Option<Ident>) -> Seq<char> {
    match name {
        Some(id) => id.name@,
        None => "~"@,
    }
}

/// A string as a list of code points.
pub open spec fn str_term(s: Seq<char>) -> TermV
    decreases s.len(),
{
    if s.len() == 0 {
        TermV::Ctr("String.nil"@, Seq::empty())
    } else {
        TermV::Ctr("String.cons"@, seq![TermV::Num(s[0] as u32 as u64), str_term(s.drop_first())])
    }
}

/// Left-nested applications of `head` to `args`: with `quote`, each step is
/// a tagged application node carrying the span, otherwise a native one.
pub open spec fn app_fold(quote: bool, sp: TermV, head: TermV, args: Seq<TermV>) -> TermV
    decreases args.len(),
{
    if args.len() == 0 {
        head
    } else {
        let f = app_fold(quote, sp, head, args.drop_last());
        if quote {
            quoted(head_text(true, TermTag::App), seq![sp, f, args.last()])
        } else {
            TermV::App(Box::new(f), Box::new(args.last()))
        }
    }
}

/// The expression holds no error marker.
pub open spec fn encodable(e: Expr) -> bool
    decreases e,
{
    match e.data {
        ExprKind::Error => false,
        ExprKind::All(_, a, b) => encodable(*a) && encodable(*b),
        ExprKind::Lambda(_, b) => encodable(*b),
        ExprKind::App(h, sp) => encodable(*h) && all_encodable(sp@),
        ExprKind::Ctr(_, sp) => all_encodable(sp@),
        ExprKind::Fun(_, sp) => all_encodable(sp@),
        ExprKind::Let(_, a, b) => encodable(*a) && encodable(*b),
        ExprKind::Ann(a, b) => encodable(*a) && encodable(*b),
        ExprKind::Sub(_, _, _, a) => encodable(*a),
        ExprKind::Binary(_, a, b) => encodable(*a) && encodable(*b),
        _ => true,
    }
}

pub open spec fn all_encodable(es: Seq<Expr>) -> bool
    decreases es,
{
    if es.len() == 0 {
        true
    } else {
        all_encodable(es.drop_last()) && encodable(es.last())
    }
}

/// The encoding of `e`, and the pattern-variable counter after it. With
/// `lhs`, each variable becomes a pattern node that carries the counter,
/// which then grows by one; otherwise a variable is a native variable, or,
/// with `quote`, a variable that records its origin.
pub open spec fn enc(lhs: bool, num: nat, quote: bool, e: Expr) -> (TermV, nat)
    decreases e,
{
    let sp = span_num(e.span);
    match e.data {
        ExprKind::Typ => (quoted(head_text(quote, TermTag::Typ), seq![sp]), num),
        ExprKind::U60 => (quoted(head_text(quote, TermTag::U60), seq![sp]), num),
        ExprKind::Var(id) => if lhs {
            (quoted(head_text(quote, TermTag::Var), seq![sp, TermV::Num(id_of(id.name@)), TermV::Num(num as u64)]), num + 1)
        } else if quote {
            (origin(id), num)
        } else {
            (TermV::Var(id.name@), num)
        },
        ExprKind::All(name, typ, body) => {
            let n = binder_name(name);
            let (t, n1) = enc(lhs, num, quote, *typ);
            let (b, n2) = enc(lhs, n1, quote, *body);
            (quoted(head_text(quote, TermTag::All), seq![sp, TermV::Num(id_of(n)), t, binder(n, b)]), n2)
        },
        ExprKind::Lambda(id, body) => {
            let (b, n1) = enc(lhs, num, quote, *body);
            (quoted(head_text(quote, TermTag::Lambda), seq![sp, TermV::Num(id_of(id.name@)), binder(id.name@, b)]), n1)
        },
        ExprKind::App(head, spine) => {
            let (h, n1) = enc(lhs, num, quote, *head);
            let (ts, n2) = enc_spine(lhs, n1, quote, spine@);
            (app_fold(quote, sp, h, ts), n2)
        },
        ExprKind::Ctr(name, spine) => {
            let (ts, n1) = enc_spine(lhs, num, quote, spine@);
            (quoted(head_text(quote, TermTag::Ctr(spine@.len() as u64)), seq![name_ctr(name.name@), sp] + ts), n1)
        },
        ExprKind::Fun(name, spine) => {
            let (ts, n1) = enc_spine(lhs, num, quote, spine@);
            if quote {
                (quoted(head_text(quote, TermTag::Fun(spine@.len() as u64)), seq![name_ctr(name.name@), sp] + ts), n1)
            } else {
                (quoted("F$"@ + name.name@, seq![sp] + ts), n1)
            }
        },
        ExprKind::Let(id, val, body) => {
            let (v, n1) = enc(lhs, num, quote, *val);
            let (b, n2) = enc(lhs, n1, quote, *body);
            (quoted(head_text(quote, TermTag::Let), seq![sp, TermV::Num(id_of(id.name@)), v, binder(id.name@, b)]), n2)
        },
        ExprKind::Ann(val, typ) => {
            let (v, n1) = enc(lhs, num, quote, *val);
            let (t, n2) = enc(lhs, n1, quote, *typ);
            (quoted(head_text(quote, TermTag::Ann), seq![sp, v, t]), n2)
        },
        ExprKind::Sub(id, idx, rdx, inner) => {
            let (v, n1) = enc(lhs, num, quote, *inner);
            (quoted(head_text(quote, TermTag::Sub),
                seq![sp, TermV::Num(id_of(id.name@)), TermV::Num(idx), TermV::Num(rdx), v]), n1)
        },
        ExprKind::Num(n) => (quoted(head_text(quote, TermTag::Num), seq![sp, TermV::Num(n)]), num),
        ExprKind::Binary(op, l, r) => {
            let (a, n1) = enc(lhs, num, quote, *l);
            let (b, n2) = enc(lhs, n1, quote, *r);
            (quoted(head_text(quote, TermTag::Binary),
                seq![TermV::Ctr(operator_text(op), Seq::empty()), sp, a, b]), n2)
        },
        ExprKind::Hole(n) => (quoted(head_text(quote, TermTag::Hole), seq![sp, TermV::Num(n)]), num),
        ExprKind::Hlp(id) => (quoted(head_text(quote, TermTag::Hlp), seq![sp, TermV::Num(id_of(id.name@))]), num),
        ExprKind::Str(s) => (str_term(s@), num),
        ExprKind::Error => (TermV::Num(0), num),
    }
}

/// The encodings of a spine, left to right, threading the counter.
pub open spec fn enc_spine(lhs: bool, num: nat, quote: bool, es: Seq<Expr>) -> (Seq<TermV>, nat)
    decreases es,
{
    if es.len() == 0 {
        (Seq::empty(), num)
    } else {
        let (ts, n1) = enc_spine(lhs, num, quote, es.drop_last());
        let (t, n2) = enc(lhs, n1, quote, es.last());
        (ts.push(t), n2)
    }
}

/// Every span in the expression fits the packed form.
pub open spec fn spans_ok(e: Expr) -> bool
    decreases e,
{
    &&& e.span.representable()
    &&& match e.data {
        ExprKind::Var(id) => Span::Locatable(id.range).representable(),
        ExprKind::All(_, a, b) => spans_ok(*a) && spans_ok(*b),
        ExprKind::Lambda(_, b) => spans_ok(*b),
        ExprKind::App(h, sp) => spans_ok(*h) && all_spans_ok(sp@),
        ExprKind::Ctr(_, sp) => all_spans_ok(sp@),
        ExprKind::Fun(_, sp) => all_spans_ok(sp@),
        ExprKind::Let(_, a, b) => spans_ok(*a) && spans_ok(*b),
        ExprKind::Ann(a, b) => spans_ok(*a) && spans_ok(*b),
        ExprKind::Sub(_, _, _, a) => spans_ok(*a),
        ExprKind::Binary(_, a, b) => spans_ok(*a) && spans_ok(*b),
        _ => true,
    }
}

pub open spec fn all_spans_ok(es: Seq<Expr>) -> bool
    decreases es,
{
    if es.len() == 0 {
        true
    } else {
        all_spans_ok(es.drop_last()) && spans_ok(es.last())
    }
}

/// The counter never goes down.
pub proof fn lemma_counter_grows(lhs: bool, num: nat, quote: bool, e: Expr)
    ensures
        enc(lhs, num, quote, e).1 >= num,
    decreases e,
{
    match e.data {
        ExprKind::All(_, a, b) => {
            lemma_counter_grows(lhs, num, quote, *a);
            lemma_counter_grows(lhs, enc(lhs, num, quote, *a).1, quote, *b);
        },
        ExprKind::Lambda(_, b) => lemma_counter_grows(lhs, num, quote, *b),
        ExprKind::App(h, sp) => {
            lemma_counter_grows(lhs, num, quote, *h);
            lemma_spine_counter_grows(lhs, enc(lhs, num, quote, *h).1, quote, sp@);
        },
        ExprKind::Ctr(_, sp) => lemma_spine_counter_grows(lhs, num, quote, sp@),
        ExprKind::Fun(_, sp) => lemma_spine_counter_grows(lhs, num, quote, sp@),
        ExprKind::Let(_, a, b) => {
            lemma_counter_grows(lhs, num, quote, *a);
            lemma_counter_grows(lhs, enc(lhs, num, quote, *a).1, quote, *b);
        },
        ExprKind::Ann(a, b) => {
            lemma_counter_grows(lhs, num, quote, *a);
            lemma_counter_grows(lhs, enc(lhs, num, quote, *a).1, quote, *b);
        },
        ExprKind::Sub(_, _, _, a) => lemma_counter_grows(lhs, num, quote, *a),
        ExprKind::Binary(_, a, b) => {
            lemma_counter_grows(lhs, num, quote, *a);
            lemma_counter_grows(lhs, enc(lhs, num, quote, *a).1, quote, *b);
        },
        _ => {},
    }
}

pub proof fn lemma_spine_counter_grows(lhs: bool, num: nat, quote: bool, es: Seq<Expr>)
    ensures
        enc_spine(lhs, num, quote, es).1 >= num,
    decreases es,
{
    if es.len() > 0 {
        lemma_spine_counter_grows(lhs, num, quote, es.drop_last());
        lemma_counter_grows(lhs, enc_spine(lhs, num, quote, es.drop_last()).1, quote, es.last());
    }
}

/// The counter after a prefix of a spine is at most the counter after it all.
proof fn lemma_spine_prefix_counter(lhs: bool, num: nat, quote: bool, es: Seq<Expr>, i: int)
    requires
        0 <= i <= es.len(),
    ensures
        enc_spine(lhs, num, quote, es.subrange(0, i)).1 <= enc_spine(lhs, num, quote, es).1,
    decreases es.len() - i,
{
    if i < es.len() {
        lemma_spine_prefix_counter(lhs, num, quote, es, i + 1);
        let pre = es.subrange(0, i + 1);
        assert(pre.drop_last() =~= es.subrange(0, i));
        lemma_counter_grows(lhs, enc_spine(lhs, num, quote, es.subrange(0, i)).1, quote, pre.last());
    } else {
        assert(es.subrange(0, i) =~= es);
    }
}

/// The string as a list of code points.
pub fn codegen_str(input: &str) -> (r: Term)
    ensures
        r.model() == str_term(input@),
{
    broadcast use vstd::string::axiom_spec_iter, vstd::string::next_postcondition;
    let mut chars: Vec<char> = Vec::new();
    let mut it = input.chars();
    loop
        invariant
            it.obeys_prophetic_iter_laws(),
            chars@ + it.remaining() == input@,
            it.decrease() is Some,
        ensures
            chars@ == input@,
        decreases it.decrease()->0,
    {
        match it.next() {
            Some(c) => {
                chars.push(c);
            },
            None => {
                assert(chars@ + it.remaining() =~= chars@);
                break;
            },
        }
    }
    proof { reveal_strlit("String.nil"); reveal_strlit("String.cons"); }
    let mut acc = mk_single_ctr(String::from_str("String.nil"));
    let mut i: usize = chars.len();
    assert(chars@ == input@);
    while i > 0
        invariant
            i <= chars@.len(),
            chars@ == input@,
            acc.model() == str_term(input@.subrange(i as int, input@.len() as int)),
        decreases i,
    {
        i = i - 1;
        let c = chars[i];
        let args = vec![mk_u60(c as u32 as u64), acc];
        proof {
            let rest = input@.subrange(i as int, input@.len() as int);
            assert(rest.drop_first() =~= input@.subrange(i + 1, input@.len() as int));
            assert(models(args@) =~= seq![TermV::Num(c as u32 as u64), str_term(rest.drop_first())]);
        }
        acc = mk_ctr(String::from_str("String.cons"), args);
    }
    assert(input@.subrange(0, input@.len() as int) =~= input@);
    acc
}

/// Models of a concatenation are the concatenation of models.
pub proof fn lemma_models_concat(a: Seq<Term>, b: Seq<Term>)
    ensures
        models(a + b) == models(a) + models(b),
{
    assert(models(a + b) =~= models(a) + models(b));
}

/// The number that stands for a span.
pub fn span_to_num(s: Span) -> (r: Term)
    requires
        s.representable(),
    ensures
        r.model() == span_num(s),
{
    mk_u60(encode_span(s))
}

/// A constructor node with its spine packed under the arity ceiling.
pub fn mk_quoted_ctr(head: String, spine: Vec<Term>) -> (r: Term)
    ensures
        r.model() == quoted(head@, models(spine@)),
{
    mk_ctr(head, lift_spine(spine))
}

/// The constructor that names a definition: its name with a trailing dot.
pub fn mk_ctr_name(id: &Ident) -> (r: Term)
    ensures
        r.model() == name_ctr(id.name@),
{
    proof { reveal_strlit("."); }
    mk_single_ctr(id.name.clone().concat("."))
}

/// A variable wrapped with the place where it was bound.
pub fn set_origin(id: &Ident) -> (r: Term)
    requires
        Span::Locatable(id.range).representable(),
    ensures
        r.model() == origin(*id),
{
    proof { reveal_strlit("Kind.Term.set_origin"); }
    let spine = vec![span_to_num(Span::Locatable(id.range)), mk_var(id.name.as_str())];
    assert(models(spine@) =~= seq![span_num(Span::Locatable(id.range)), TermV::Var(id.name@)]);
    mk_quoted_ctr(String::from_str("Kind.Term.set_origin"), spine)
}

/// Encodes each expression of a spine, left to right.
pub fn codegen_spine(lhs: bool, num: &mut u64, quote: bool, es: &Vec<Expr>) -> (r: Vec<Term>)
    requires
        all_encodable(es@),
        all_spans_ok(es@),
        enc_spine(lhs, *old(num) as nat, quote, es@).1 <= u64::MAX,
    ensures
        (models(r@), *final(num) as nat) == enc_spine(lhs, *old(num) as nat, quote, es@),
    decreases es, 0nat,
{
    let ghost start = *num as nat;
    let mut out: Vec<Term> = Vec::new();
    let mut i: usize = 0;
    assert(es@.subrange(0, 0) =~= Seq::<Expr>::empty());
    assert(models(out@) =~= Seq::empty());
    while i < es.len()
        invariant
            i <= es@.len(),
            all_encodable(es@),
            all_spans_ok(es@),
            enc_spine(lhs, start, quote, es@).1 <= u64::MAX,
            (models(out@), *num as nat) == enc_spine(lhs, start, quote, es@.subrange(0, i as int)),
        decreases es@.len() - i,
    {
        let ghost pre = es@.subrange(0, i as int + 1);
        proof {
            assert(pre.drop_last() =~= es@.subrange(0, i as int));
            assert(pre.last() == es@[i as int]);
            lemma_spine_prefix_counter(lhs, start, quote, es@, i as int + 1);
            lemma_all_prefix(es@, i as int + 1);
            assert(decreases_to!(es => es@[i as int]));
        }
        let t = codegen_all_expr(lhs, num, quote, &es[i]);
        let ghost before = out@;
        out.push(t);
        proof {
            assert(models(out@) =~= models(before).push(t.model()));
        }
        i = i + 1;
    }
    assert(es@.subrange(0, es@.len() as int) =~= es@);
    out
}

/// Prefixes of an encodable, well-spanned spine are encodable and well spanned,
/// and so is each of its members.
proof fn lemma_all_prefix(es: Seq<Expr>, i: int)
    requires
        0 <= i <= es.len(),
        all_encodable(es) || all_spans_ok(es),
    ensures
        all_encodable(es) ==> all_encodable(es.subrange(0, i)),
        all_spans_ok(es) ==> all_spans_ok(es.subrange(0, i)),
        i > 0 && all_encodable(es) ==> encodable(es[i - 1]),
        i > 0 && all_spans_ok(es) ==> spans_ok(es[i - 1]),
    decreases es.len() - i,
{
    if i < es.len() {
        lemma_all_prefix(es, i + 1);
        assert(es.subrange(0, i + 1).drop_last() =~= es.subrange(0, i));
    } else {
        assert(es.subrange(0, i) =~= es);
    }
    if i > 0 {
        let p = es.subrange(0, i);
        assert(p.last() == es[i - 1]);
        if all_encodable(es) {
            assert(all_encodable(p));
            assert(encodable(p.last()));
        }
        if all_spans_ok(es) {
            assert(all_spans_ok(p));
            assert(spans_ok(p.last()));
        }
    }
}

/// Left-nested applications, tagged with `quote`, native otherwise.
fn codegen_app_fold(quote: bool, span: Span, head: Term, args: Vec<Term>) -> (r: Term)
    requires
        span.representable(),
    ensures
        r.model() == app_fold(quote, span_num(span), head.model(), models(args@)),
{
    let ghost sp = span_num(span);
    let ghost all = models(args@);
    let ghost h = head.model();
    let mut acc = head;
    let mut rest = args;
    let n = rest.len();
    let mut i: usize = 0;
    assert(models(rest@) =~= all.subrange(0, n as int));
    while i < n
        invariant
            n == all.len(),
            i <= n,
            rest@.len() == n - i,
            models(rest@) == all.subrange(i as int, n as int),
            span.representable(),
            sp == span_num(span),
            acc.model() == app_fold(quote, sp, h, all.subrange(0, i as int)),
        decreases n - i,
    {
        let ghost before = rest@;
        let t = rest.remove(0);
        proof {
            assert(models(before)[0] == t.model());
            assert(models(rest@) =~= models(before).drop_first());
            let pre = all.subrange(0, i as int + 1);
            assert(pre.drop_last() =~= all.subrange(0, i as int));
            assert(all.subrange(i as int, n as int)[0] == all[i as int]);
            assert(t.model() == all[i as int]);
        }
        if quote {
            let st = span_to_num(span);
            let ghost am = acc.model();
            let ghost tm = t.model();
            let spine = vec![st, acc, t];
            assert(spine@[0].model() == sp && spine@[1].model() == am && spine@[2].model() == tm);
            assert(models(spine@) =~= seq![sp, am, tm]);
            acc = mk_quoted_ctr(eval_ctr(true, TermTag::App), spine);
        } else {
            acc = app(acc, t);
        }
        i = i + 1;
    }
    assert(all.subrange(0, n as int) =~= all);
    acc
}

/// Encodes an expression without subexpressions.
fn codegen_leaf(lhs: bool, num: &mut u64, quote: bool, expr: &Expr) -> (r: Term)
    requires
        !(expr.data is All || expr.data is Lambda || expr.data is App || expr.data is Ctr || expr.data is Fun || expr.data is Let || expr.data is Ann || expr.data is Sub || expr.data is Binary),
        encodable(*expr),
        spans_ok(*expr),
        enc(lhs, *old(num) as nat, quote, *expr).1 <= u64::MAX,
    ensures
        (r.model(), *final(num) as nat) == enc(lhs, *old(num) as nat, quote, *expr),
    decreases expr, 0nat,
{
    let ghost n0 = *num as nat;
    let ghost sp = span_num(expr.span);
    match &expr.data {
        ExprKind::Typ => {
            let spine = vec![span_to_num(expr.span)];
            assert(models(spine@) =~= seq![sp]);
            mk_quoted_ctr(eval_ctr(quote, TermTag::Typ), spine)
        },
        ExprKind::U60 => {
            let spine = vec![span_to_num(expr.span)];
            assert(models(spine@) =~= seq![sp]);
            mk_quoted_ctr(eval_ctr(quote, TermTag::U60), spine)
        },
        ExprKind::Var(id) => {
            if lhs {
                let idx = *num;
                *num = *num + 1;
                let spine = vec![span_to_num(expr.span), mk_u60(name_id(id.name.as_str())), mk_u60(idx)];
                assert(models(spine@) =~= seq![sp, TermV::Num(id_of(id.name@)), TermV::Num(idx)]);
                mk_quoted_ctr(eval_ctr(quote, TermTag::Var), spine)
            } else if quote {
                set_origin(id)
            } else {
                mk_var(id.name.as_str())
            }
        },
        ExprKind::Num(n) => {
            let spine = vec![span_to_num(expr.span), mk_u60(*n)];
            assert(models(spine@) =~= seq![sp, TermV::Num(*n)]);
            mk_quoted_ctr(eval_ctr(quote, TermTag::Num), spine)
        },
        ExprKind::Hole(n) => {
            let spine = vec![span_to_num(expr.span), mk_u60(*n)];
            assert(models(spine@) =~= seq![sp, TermV::Num(*n)]);
            mk_quoted_ctr(eval_ctr(quote, TermTag::Hole), spine)
        },
        ExprKind::Hlp(id) => {
            let spine = vec![span_to_num(expr.span), mk_u60(name_id(id.name.as_str()))];
            assert(models(spine@) =~= seq![sp, TermV::Num(id_of(id.name@))]);
            mk_quoted_ctr(eval_ctr(quote, TermTag::Hlp), spine)
        },
        ExprKind::Str(input) => codegen_str(input.as_str()),
        _ => {
            assert(false);
            mk_u60(0)
        },
    }
}

#[verifier::rlimit(40)]
/// Encodes the All form.
fn codegen_all(lhs: bool, num: &mut u64, quote: bool, expr: &Expr) -> (r: Term)
    requires
        expr.data is All,
        encodable(*expr),
        spans_ok(*expr),
        enc(lhs, *old(num) as nat, quote, *expr).1 <= u64::MAX,
    ensures
        (r.model(), *final(num) as nat) == enc(lhs, *old(num) as nat, quote, *expr),
    decreases expr, 0nat,
{
    let ghost n0 = *num as nat;
    let ghost sp = span_num(expr.span);
    match &expr.data {
        ExprKind::All(name, typ, body) => {
            proof { reveal_strlit("~"); }
            let bname = match name {
                Some(id) => id.name.clone(),
                None => String::from_str("~"),
            };
            proof { lemma_counter_grows(lhs, enc(lhs, n0, quote, **typ).1, quote, **body); }
            let t = codegen_all_expr(lhs, num, quote, typ);
            let b = codegen_all_expr(lhs, num, quote, body);
            let spine = vec![span_to_num(expr.span), mk_u60(name_id(bname.as_str())), t, lam(bname.as_str(), b)];
            assert(models(spine@) =~= seq![sp, TermV::Num(id_of(bname@)), t.model(), binder(bname@, b.model())]);
            mk_quoted_ctr(eval_ctr(quote, TermTag::All), spine)
        },
        _ => {
            assert(false);
            mk_u60(0)
        },
    }
}

#[verifier::rlimit(40)]
/// Encodes the Lambda form.
fn codegen_lambda(lhs: bool, num: &mut u64, quote: bool, expr: &Expr) -> (r: Term)
    requires
        expr.data is Lambda,
        encodable(*expr),
        spans_ok(*expr),
        enc(lhs, *old(num) as nat, quote, *expr).1 <= u64::MAX,
    ensures
        (r.model(), *final(num) as nat) == enc(lhs, *old(num) as nat, quote, *expr),
    decreases expr, 0nat,
{
    let ghost n0 = *num as nat;
    let ghost sp = span_num(expr.span);
    match &expr.data {
        ExprKind::Lambda(id, body) => {
            let b = codegen_all_expr(lhs, num, quote, body);
            let spine = vec![span_to_num(expr.span), mk_u60(name_id(id.name.as_str())), lam(id.name.as_str(), b)];
            assert(models(spine@) =~= seq![sp, TermV::Num(id_of(id.name@)), binder(id.name@, b.model())]);
            mk_quoted_ctr(eval_ctr(quote, TermTag::Lambda), spine)
        },
        _ => {
            assert(false);
            mk_u60(0)
        },
    }
}

#[verifier::rlimit(40)]
/// Encodes the Let form.
fn codegen_let(lhs: bool, num: &mut u64, quote: bool, expr: &Expr) -> (r: Term)
    requires
        expr.data is Let,
        encodable(*expr),
        spans_ok(*expr),
        enc(lhs, *old(num) as nat, quote, *expr).1 <= u64::MAX,
    ensures
        (r.model(), *final(num) as nat) == enc(lhs, *old(num) as nat, quote, *expr),
    decreases expr, 0nat,
{
    let ghost n0 = *num as nat;
    let ghost sp = span_num(expr.span);
    match &expr.data {
        ExprKind::Let(id, val, body) => {
            proof { lemma_counter_grows(lhs, enc(lhs, n0, quote, **val).1, quote, **body); }
            let v = codegen_all_expr(lhs, num, quote, val);
            let b = codegen_all_expr(lhs, num, quote, body);
            let spine = vec![span_to_num(expr.span), mk_u60(name_id(id.name.as_str())), v, lam(id.name.as_str(), b)];
            assert(models(spine@) =~= seq![sp, TermV::Num(id_of(id.name@)), v.model(), binder(id.name@, b.model())]);
            mk_quoted_ctr(eval_ctr(quote, TermTag::Let), spine)
        },
        _ => {
            assert(false);
            mk_u60(0)
        },
    }
}


#[verifier::rlimit(40)]
/// Encodes the Ann form.
fn codegen_ann(lhs: bool, num: &mut u64, quote: bool, expr: &Expr) -> (r: Term)
    requires
        expr.data is Ann,
        encodable(*expr),
        spans_ok(*expr),
        enc(lhs, *old(num) as nat, quote, *expr).1 <= u64::MAX,
    ensures
        (r.model(), *final(num) as nat) == enc(lhs, *old(num) as nat, quote, *expr),
    decreases expr, 0nat,
{
    let ghost n0 = *num as nat;
    let ghost sp = span_num(expr.span);
    match &expr.data {
        ExprKind::Ann(val, typ) => {
            proof { lemma_counter_grows(lhs, enc(lhs, n0, quote, **val).1, quote, **typ); }
            let v = codegen_all_expr(lhs, num, quote, val);
            let t = codegen_all_expr(lhs, num, quote, typ);
            let spine = vec![span_to_num(expr.span), v, t];
            assert(models(spine@) =~= seq![sp, v.model(), t.model()]);
            mk_quoted_ctr(eval_ctr(quote, TermTag::Ann), spine)
        },
        _ => {
            assert(false);
            mk_u60(0)
        },
    }
}

#[verifier::rlimit(40)]
/// Encodes the Sub form.
fn codegen_sub(lhs: bool, num: &mut u64, quote: bool, expr: &Expr) -> (r: Term)
    requires
        expr.data is Sub,
        encodable(*expr),
        spans_ok(*expr),
        enc(lhs, *old(num) as nat, quote, *expr).1 <= u64::MAX,
    ensures
        (r.model(), *final(num) as nat) == enc(lhs, *old(num) as nat, quote, *expr),
    decreases expr, 0nat,
{
    let ghost n0 = *num as nat;
    let ghost sp = span_num(expr.span);
    match &expr.data {
        ExprKind::Sub(id, idx, rdx, inner) => {
            let v = codegen_all_expr(lhs, num, quote, inner);
            let spine = vec![span_to_num(expr.span), mk_u60(name_id(id.name.as_str())), mk_u60(*idx), mk_u60(*rdx), v];
            assert(models(spine@) =~= seq![sp, TermV::Num(id_of(id.name@)), TermV::Num(*idx), TermV::Num(*rdx), v.model()]);
            mk_quoted_ctr(eval_ctr(quote, TermTag::Sub), spine)
        },
        _ => {
            assert(false);
            mk_u60(0)
        },
    }
}

#[verifier::rlimit(40)]
/// Encodes the Binary form.
fn codegen_binary(lhs: bool, num: &mut u64, quote: bool, expr: &Expr) -> (r: Term)
    requires
        expr.data is Binary,
        encodable(*expr),
        spans_ok(*expr),
        enc(lhs, *old(num) as nat, quote, *expr).1 <= u64::MAX,
    ensures
        (r.model(), *final(num) as nat) == enc(lhs, *old(num) as nat, quote, *expr),
    decreases expr, 0nat,
{
    let ghost n0 = *num as nat;
    let ghost sp = span_num(expr.span);
    match &expr.data {
        ExprKind::Binary(op, l, r) => {
            proof { lemma_counter_grows(lhs, enc(lhs, n0, quote, **l).1, quote, **r); }
            let a = codegen_all_expr(lhs, num, quote, l);
            let b = codegen_all_expr(lhs, num, quote, r);
            let spine = vec![mk_single_ctr(operator_to_constructor(*op)), span_to_num(expr.span), a, b];
            assert(models(spine@) =~= seq![TermV::Ctr(operator_text(*op), Seq::empty()), sp, a.model(), b.model()]);
            mk_quoted_ctr(eval_ctr(quote, TermTag::Binary), spine)
        },
        _ => {
            assert(false);
            mk_u60(0)
        },
    }
}


/// Encodes an application, a constructor or a function call.
fn codegen_call(lhs: bool, num: &mut u64, quote: bool, expr: &Expr) -> (r: Term)
    requires
        expr.data is App || expr.data is Ctr || expr.data is Fun,
        encodable(*expr),
        spans_ok(*expr),
        enc(lhs, *old(num) as nat, quote, *expr).1 <= u64::MAX,
    ensures
        (r.model(), *final(num) as nat) == enc(lhs, *old(num) as nat, quote, *expr),
    decreases expr, 0nat,
{
    let ghost n0 = *num as nat;
    let ghost sp = span_num(expr.span);
    match &expr.data {
        ExprKind::App(head, spine) => {
            proof { lemma_spine_counter_grows(lhs, enc(lhs, n0, quote, **head).1, quote, spine@); }
            let h = codegen_all_expr(lhs, num, quote, head);
            let ts = codegen_spine(lhs, num, quote, spine);
            codegen_app_fold(quote, expr.span, h, ts)
        },
        ExprKind::Ctr(name, spine) => {
            let mut ts = codegen_spine(lhs, num, quote, spine);
            let ghost tm = models(ts@);
            let mut all = vec![mk_ctr_name(name), span_to_num(expr.span)];
            let ghost first = models(all@);
            all.append(&mut ts);
            proof {
                lemma_models_concat(all@.subrange(0, 2), all@.subrange(2, all@.len() as int));
                assert(all@ =~= all@.subrange(0, 2) + all@.subrange(2, all@.len() as int));
                assert(first =~= seq![name_ctr(name.name@), sp]);
            }
            assert(models(all@) =~= seq![name_ctr(name.name@), sp] + tm);
            mk_quoted_ctr(eval_ctr(quote, TermTag::Ctr(spine.len() as u64)), all)
        },
        ExprKind::Fun(name, spine) => {
            let mut ts = codegen_spine(lhs, num, quote, spine);
            let ghost tm = models(ts@);
            if quote {
                let mut all = vec![mk_ctr_name(name), span_to_num(expr.span)];
                let ghost first = models(all@);
                all.append(&mut ts);
                proof {
                    lemma_models_concat(all@.subrange(0, 2), all@.subrange(2, all@.len() as int));
                    assert(all@ =~= all@.subrange(0, 2) + all@.subrange(2, all@.len() as int));
                    assert(first =~= seq![name_ctr(name.name@), sp]);
                }
                assert(models(all@) =~= seq![name_ctr(name.name@), sp] + tm);
                mk_quoted_ctr(eval_ctr(quote, TermTag::Fun(spine.len() as u64)), all)
            } else {
                let mut all = vec![span_to_num(expr.span)];
                let ghost first = models(all@);
                all.append(&mut ts);
                proof {
                    lemma_models_concat(all@.subrange(0, 1), all@.subrange(1, all@.len() as int));
                    assert(all@ =~= all@.subrange(0, 1) + all@.subrange(1, all@.len() as int));
                    assert(first =~= seq![sp]);
                }
                assert(models(all@) =~= seq![sp] + tm);
                let head = TermTag::HoasF(name.name.clone()).text();
                mk_quoted_ctr(head, all)
            }
        },
        _ => {
            assert(false);
            mk_u60(0)
        },
    }
}

/// Encodes an expression. `lhs` marks a rule's left-hand side, where each
/// variable takes the next index from `num`; `quote` selects the
/// introspectable encoding over the executable one.
pub fn codegen_all_expr(lhs: bool, num: &mut u64, quote: bool, expr: &Expr) -> (r: Term)
    requires
        encodable(*expr),
        spans_ok(*expr),
        enc(lhs, *old(num) as nat, quote, *expr).1 <= u64::MAX,
    ensures
        (r.model(), *final(num) as nat) == enc(lhs, *old(num) as nat, quote, *expr),
    decreases expr, 1nat,
{
    match &expr.data {
        ExprKind::All(..) => codegen_all(lhs, num, quote, expr),
        ExprKind::Lambda(..) => codegen_lambda(lhs, num, quote, expr),
        ExprKind::Let(..) => codegen_let(lhs, num, quote, expr),
        ExprKind::Ann(..) => codegen_ann(lhs, num, quote, expr),
        ExprKind::Sub(..) => codegen_sub(lhs, num, quote, expr),
        ExprKind::Binary(..) => codegen_binary(lhs, num, quote, expr),
        ExprKind::App(..) | ExprKind::Ctr(..) | ExprKind::Fun(..) => codegen_call(lhs, num, quote, expr),
        _ => codegen_leaf(lhs, num, quote, expr),
    }
}

/// Outside patterns the counter stays where it was.
pub proof fn lemma_counter_fixed(num: nat, quote: bool, e: Expr)
    ensures
        enc(false, num, quote, e).1 == num,
    decreases e,
{
    match e.data {
        ExprKind::All(_, a, b) => {
            lemma_counter_fixed(num, quote, *a);
            lemma_counter_fixed(num, quote, *b);
        },
        ExprKind::Lambda(_, b) => lemma_counter_fixed(num, quote, *b),
        ExprKind::App(h, sp) => {
            lemma_counter_fixed(num, quote, *h);
            lemma_spine_counter_fixed(num, quote, sp@);
        },
        ExprKind::Ctr(_, sp) => lemma_spine_counter_fixed(num, quote, sp@),
        ExprKind::Fun(_, sp) => lemma_spine_counter_fixed(num, quote, sp@),
        ExprKind::Let(_, a, b) => {
            lemma_counter_fixed(num, quote, *a);
            lemma_counter_fixed(num, quote, *b);
        },
        ExprKind::Ann(a, b) => {
            lemma_counter_fixed(num, quote, *a);
            lemma_counter_fixed(num, quote, *b);
        },
        ExprKind::Sub(_, _, _, a) => lemma_counter_fixed(num, quote, *a),
        ExprKind::Binary(_, a, b) => {
            lemma_counter_fixed(num, quote, *a);
            lemma_counter_fixed(num, quote, *b);
        },
        _ => {},
    }
}

pub proof fn lemma_spine_counter_fixed(num: nat, quote: bool, es: Seq<Expr>)
    ensures
        enc_spine(false, num, quote, es).1 == num,
    decreases es,
{
    if es.len() > 0 {
        lemma_spine_counter_fixed(num, quote, es.drop_last());
        lemma_counter_fixed(num, quote, es.last());
    }
}

} // verus!
