//! Rule generation: for each definition its two call variants, its
//! rewrite rules in both encodings, and the four relations that the
//! checker queries (name, hash, type and rules of a definition).
use vstd::prelude::*;
use vstd::string::StringExecFns;
use crate::encoder::{
    all_encodable, all_spans_ok, binder, codegen_all_expr, codegen_spine, codegen_str, enc,
    enc_spine, encodable, mk_ctr_name, mk_quoted_ctr, name_ctr, quoted, span_num, span_to_num,
    spans_ok, str_term,
};
use crate::expr::{Argument, Book, Entry, Expr, Rule as Equation};
use crate::names::{fx_hash_of, hash_name, id_of, name_id};
use crate::tags::{head_text, TermTag};
use crate::term::{
    decimal, lam, lifted, mk_ctr, mk_u60, mk_var, models, numbered, rule_models,
    Rule, RuleV, Term, TermV,
};

verus! {

/// A generated program: rewrite rules in order.
#[derive(Debug)]
pub struct RuleFile {
    pub rules: Vec<Rule>,
}

/// The executable or introspectable encoding of an expression outside patterns.
pub open spec fn enc_expr(quote: bool, e: Expr) -> TermV {
    enc(false, 0, quote, e).0
}

/// The curried dependent function type of a definition.
pub open spec fn type_term(args: Seq<Argument>, tipo: Expr) -> TermV
    decreases args.len(),
{
    if args.len() == 0 {
        enc_expr(true, tipo)
    } else {
        let a = args[0];
        quoted(head_text(true, TermTag::All), seq![
            span_num(a.span),
            TermV::Num(id_of(a.name.name@)),
            enc_expr(true, a.tipo),
            binder(a.name.name@, type_term(args.drop_first(), tipo)),
        ])
    }
}

/// A list built by consing each element in turn onto the empty list, so
/// that the last element comes first.
pub open spec fn list_term(s: Seq<TermV>) -> TermV
    decreases s.len(),
{
    if s.len() == 0 {
        TermV::Ctr("List.nil"@, Seq::empty())
    } else {
        TermV::Ctr("List.cons"@, seq![s.last(), list_term(s.drop_last())])
    }
}

pub open spec fn var_v(n: Seq<char>) -> TermV {
    TermV::Var(n)
}

/// The variables `x0`, `x1`, ... for `n` positions.
pub open spec fn base_vars(n: nat) -> Seq<TermV> {
    Seq::new(n, |i: int| TermV::Var("x"@ + decimal(i as nat)))
}

/// The pattern spine of an equation and the count of its variables.
pub open spec fn pattern_spine(r: Equation) -> Seq<TermV> {
    enc_spine(true, 0, false, r.pats@).0
}

/// The two rules of an equation: its introspectable form under the quoted
/// call tag, and its executable form under the direct call tag. The logging
/// primitive runs as a rule that shows its argument, then continues.
pub open spec fn equation_rules(r: Equation) -> Seq<RuleV> {
    let lhs = seq![var_v("orig"@)] + pattern_spine(r);
    let q = RuleV { lhs: quoted("Q$"@ + r.name.name@, lhs), rhs: enc_expr(true, r.body) };
    let f = if r.name.name@ == "HVM.log"@ {
        RuleV {
            lhs: TermV::Ctr("F$"@ + r.name.name@, seq![var_v("orig"@), var_v("a"@), var_v("r"@), var_v("log"@), var_v("ret"@)]),
            rhs: TermV::Ctr("HVM.put"@, seq![TermV::Ctr("HVM.Term.show"@, seq![var_v("log"@)]), var_v("ret"@)]),
        }
    } else {
        RuleV { lhs: quoted("F$"@ + r.name.name@, lhs), rhs: enc_expr(false, r.body) }
    };
    seq![q, f]
}

/// The fallback rules of a definition: a call that no equation matched
/// stays a call node, under both call tags.
pub open spec fn fallback_rules(r: Equation) -> Seq<RuleV> {
    let vars = base_vars(r.pats@.len());
    let rhs = quoted(head_text(false, TermTag::Fun(r.pats@.len() as u64)), seq![name_ctr(r.name.name@), var_v("orig"@)] + vars);
    seq![
        RuleV { lhs: quoted("Q$"@ + r.name.name@, seq![var_v("orig"@)] + vars), rhs },
        RuleV { lhs: quoted("F$"@ + r.name.name@, seq![var_v("orig"@)] + vars), rhs },
    ]
}

/// The reified equation: a right-nested chain of left-hand sides over the
/// pattern spine, ending in the right-hand side call.
pub open spec fn reified_chain(name: Seq<char>, span: crate::span::Span, pats: Seq<TermV>, i: nat) -> TermV
    decreases pats.len() - i,
{
    if i >= pats.len() {
        TermV::Ctr("Kind.Rule.rhs"@, seq![
            quoted("QT"@ + decimal(pats.len()), seq![name_ctr(name), span_num(span)] + pats),
        ])
    } else {
        TermV::Ctr("Kind.Rule.lhs"@, seq![pats[i as int], reified_chain(name, span, pats, i + 1)])
    }
}

pub open spec fn reified_equation(r: Equation) -> TermV {
    reified_chain(r.name.name@, r.span, pattern_spine(r), 0)
}

/// All rules that a definition compiles to.
pub open spec fn entry_rules(e: Entry) -> Seq<RuleV> {
    let n = e.name.name@;
    let vars = base_vars(e.args@.len());
    let head = seq![
        RuleV { lhs: TermV::Ctr("NameOf"@, seq![name_ctr(n)]), rhs: str_term(n) },
        RuleV { lhs: TermV::Ctr("HashOf"@, seq![name_ctr(n)]), rhs: TermV::Num(fx_hash_of(n)) },
        RuleV { lhs: TermV::Ctr("TypeOf"@, seq![name_ctr(n)]), rhs: type_term(e.args@, e.tipo) },
        RuleV {
            lhs: quoted("Kind.Term.FN"@ + decimal(e.args@.len()), seq![name_ctr(n), var_v("orig"@)] + vars),
            rhs: quoted("F$"@ + n, seq![var_v("orig"@)] + vars),
        },
        RuleV {
            lhs: quoted("QT"@ + decimal(e.args@.len()), seq![name_ctr(n), var_v("orig"@)] + vars),
            rhs: quoted("Q$"@ + n, seq![var_v("orig"@)] + vars),
        },
    ];
    let eqs = Seq::new(e.rules@.len(), |i: int| equation_rules(e.rules@[i])).flatten();
    let fallback = if e.rules@.len() > 0 { fallback_rules(e.rules@[0]) } else { Seq::empty() };
    let reified = Seq::new(e.rules@.len(), |i: int| reified_equation(e.rules@[i]));
    head + eqs + fallback + seq![RuleV { lhs: TermV::Ctr("RuleOf"@, seq![name_ctr(n)]), rhs: list_term(reified) }]
}

/// Every expression of the definition can be encoded and every span packed.
pub open spec fn expr_ok(e: Expr) -> bool {
    encodable(e) && spans_ok(e)
}

pub open spec fn equation_ok(r: Equation) -> bool {
    &&& all_encodable(r.pats@)
    &&& all_spans_ok(r.pats@)
    &&& expr_ok(r.body)
    &&& r.span.representable()
    &&& enc_spine(true, 0, false, r.pats@).1 <= u64::MAX
}

pub open spec fn entry_ok(e: Entry) -> bool {
    &&& forall|i: int| 0 <= i < e.args@.len() ==> expr_ok(#[trigger] e.args@[i].tipo) && e.args@[i].span.representable()
    &&& expr_ok(e.tipo)
    &&& forall|i: int| 0 <= i < e.rules@.len() ==> equation_ok(#[trigger] e.rules@[i])
}

pub open spec fn book_ok(b: Book) -> bool {
    forall|i: int| 0 <= i < b.entries@.len() ==> entry_ok(#[trigger] b.entries@[i])
}

/// Encodes an expression outside patterns.
pub fn codegen_expr(quote: bool, expr: &Expr) -> (r: Term)
    requires
        expr_ok(*expr),
    ensures
        r.model() == enc_expr(quote, *expr),
{
    let mut num: u64 = 0;
    proof { crate::encoder::lemma_counter_fixed(0, quote, *expr); }
    codegen_all_expr(false, &mut num, quote, expr)
}

/// Encodes a pattern of a rule's left-hand side; each variable takes the
/// next index from `args`.
pub fn codegen_pattern(args: &mut u64, quote: bool, expr: &Expr) -> (r: Term)
    requires
        encodable(*expr),
        spans_ok(*expr),
        enc(true, *old(args) as nat, quote, *expr).1 <= u64::MAX,
    ensures
        (r.model(), *final(args) as nat) == enc(true, *old(args) as nat, quote, *expr),
{
    codegen_all_expr(true, args, quote, expr)
}

/// The curried function type over the parameters from `i` on.
pub fn codegen_type(args: &Vec<Argument>, i: usize, typ: &Expr) -> (r: Term)
    requires
        i <= args@.len(),
        forall|j: int| 0 <= j < args@.len() ==> expr_ok(#[trigger] args@[j].tipo) && args@[j].span.representable(),
        expr_ok(*typ),
    ensures
        r.model() == type_term(args@.subrange(i as int, args@.len() as int), *typ),
    decreases args@.len() - i,
{
    let ghost rest = args@.subrange(i as int, args@.len() as int);
    if i < args.len() {
        let arg = &args[i];
        let t = codegen_expr(true, &arg.tipo);
        let body = codegen_type(args, i + 1, typ);
        assert(rest.drop_first() =~= args@.subrange(i as int + 1, args@.len() as int));
        let spine = vec![span_to_num(arg.span), mk_u60(name_id(arg.name.name.as_str())), t, lam(arg.name.name.as_str(), body)];
        assert(models(spine@) =~= seq![span_num(arg.span), TermV::Num(id_of(arg.name.name@)), t.model(), binder(arg.name.name@, body.model())]);
        crate::encoder::mk_quoted_ctr(crate::tags::eval_ctr(true, TermTag::All), spine)
    } else {
        codegen_expr(true, typ)
    }
}

/// A list of terms, built by consing each in turn onto the empty list.
pub fn codegen_vec(items: Vec<Term>) -> (r: Term)
    ensures
        r.model() == list_term(models(items@)),
{
    proof { reveal_strlit("List.nil"); reveal_strlit("List.cons"); }
    let ghost all = models(items@);
    let mut acc = crate::term::mk_single_ctr(String::from_str("List.nil"));
    let mut rest = items;
    let n = rest.len();
    let mut i: usize = 0;
    assert(models(rest@) =~= all.subrange(0, n as int));
    while i < n
        invariant
            n == all.len(),
            i <= n,
            rest@.len() == n - i,
            models(rest@) == all.subrange(i as int, n as int),
            acc.model() == list_term(all.subrange(0, i as int)),
        decreases n - i,
    {
        let ghost before = rest@;
        let t = rest.remove(0);
        proof {
            assert(models(before)[0] == t.model());
            assert(models(rest@) =~= models(before).drop_first());
            let pre = all.subrange(0, i as int + 1);
            assert(pre.drop_last() =~= all.subrange(0, i as int));
            assert(all.subrange(i as int, n as int)[0] == all[i as int]);
        }
        let args = vec![t, acc];
        assert(models(args@) =~= seq![all[i as int], list_term(all.subrange(0, i as int))]);
        acc = mk_ctr(String::from_str("List.cons"), args);
        i = i + 1;
    }
    assert(all.subrange(0, n as int) =~= all);
    acc
}

/// The variables `x0` to `x{n-1}`.
pub fn make_base_vars(n: usize) -> (r: Vec<Term>)
    ensures
        models(r@) == base_vars(n as nat),
{
    proof { reveal_strlit("x"); }
    let mut out: Vec<Term> = Vec::new();
    let mut i: usize = 0;
    while i < n
        invariant
            i <= n,
            models(out@) == base_vars(i as nat),
        decreases n - i,
    {
        let name = numbered("x", i as u64);
        let v = mk_var(name.as_str());
        let ghost before = out@;
        out.push(v);
        assert(models(out@) =~= base_vars(i as nat + 1)) by {
            assert(models(out@) =~= models(before).push(v.model()));
        }
        i = i + 1;
    }
    out
}

/// `[first] + rest`, as models.
fn prepend(first: Term, rest: Vec<Term>) -> (r: Vec<Term>)
    ensures
        models(r@) == seq![first.model()] + models(rest@),
{
    let mut rest = rest;
    let mut out = vec![first];
    let ghost a = out@;
    let ghost b = rest@;
    out.append(&mut rest);
    proof {
        crate::encoder::lemma_models_concat(a, b);
        assert(models(a) =~= seq![first.model()]);
    }
    out
}

/// `[a, b] + rest`, as models.
fn prepend2(a: Term, b: Term, rest: Vec<Term>) -> (r: Vec<Term>)
    ensures
        models(r@) == seq![a.model(), b.model()] + models(rest@),
{
    let inner = prepend(b, rest);
    let r = prepend(a, inner);
    assert(models(r@) =~= seq![a.model(), b.model()] + models(rest@));
    r
}

fn push_rule(file: &mut Vec<Rule>, lhs: Term, rhs: Term)
    ensures
        rule_models(final(file)@) == rule_models(old(file)@).push(RuleV { lhs: lhs.model(), rhs: rhs.model() }),
{
    file.push(Rule { lhs, rhs });
    assert(rule_models(final(file)@) =~= rule_models(old(file)@).push(RuleV { lhs: lhs.model(), rhs: rhs.model() }));
}

/// The two rules of one equation.
pub fn codegen_rule(file: &mut Vec<Rule>, rule: &Equation)
    requires
        equation_ok(*rule),
    ensures
        rule_models(final(file)@) == rule_models(old(file)@) + equation_rules(*rule),
{
    proof {
        reveal_strlit("orig"); reveal_strlit("HVM.log"); reveal_strlit("a"); reveal_strlit("r");
        reveal_strlit("log"); reveal_strlit("ret"); reveal_strlit("HVM.put"); reveal_strlit("HVM.Term.show");
    }
    let ghost start = rule_models(file@);
    let mut count: u64 = 0;
    let lhs_args = codegen_spine(true, &mut count, false, &rule.pats);
    let lhs_copy = crate::term::duplicate_all(&lhs_args);
    let q_name = TermTag::HoasQ(rule.name.name.clone()).text();
    let lhs = mk_quoted_ctr(q_name, prepend(mk_var("orig"), lhs_args));
    push_rule(file, lhs, codegen_expr(true, &rule.body));
    let f_name = TermTag::HoasF(rule.name.name.clone()).text();
    let log = String::from_str("HVM.log");
    if rule.name.name == log {
        let vars = vec![mk_var("orig"), mk_var("a"), mk_var("r"), mk_var("log"), mk_var("ret")];
        assert(models(vars@) =~= seq![var_v("orig"@), var_v("a"@), var_v("r"@), var_v("log"@), var_v("ret"@)]);
        let show_args = vec![mk_var("log")];
        assert(models(show_args@) =~= seq![var_v("log"@)]);
        let show = mk_ctr(String::from_str("HVM.Term.show"), show_args);
        let put_args = vec![show, mk_var("ret")];
        assert(models(put_args@) =~= seq![TermV::Ctr("HVM.Term.show"@, seq![var_v("log"@)]), var_v("ret"@)]);
        push_rule(file, mk_ctr(f_name, vars), mk_ctr(String::from_str("HVM.put"), put_args));
    } else {
        let lhs = mk_quoted_ctr(f_name, prepend(mk_var("orig"), lhs_copy));
        push_rule(file, lhs, codegen_expr(false, &rule.body));
    }
    assert(rule_models(file@) =~= start + equation_rules(*rule));
}

/// The fallback rules of a definition, from the arity of its first equation.
pub fn codegen_rule_end(file: &mut Vec<Rule>, rule: &Equation)
    ensures
        rule_models(final(file)@) == rule_models(old(file)@) + fallback_rules(*rule),
{
    proof { reveal_strlit("orig"); }
    let ghost start = rule_models(file@);
    let vars = make_base_vars(rule.pats.len());
    let n = rule.pats.len() as u64;
    let vars2 = crate::term::duplicate_all(&vars);
    let vars3 = crate::term::duplicate_all(&vars);
    let vars4 = crate::term::duplicate_all(&vars);
    let q_lhs = mk_quoted_ctr(TermTag::HoasQ(rule.name.name.clone()).text(), prepend(mk_var("orig"), vars));
    let q_rhs = mk_quoted_ctr(crate::tags::eval_ctr(false, TermTag::Fun(n)), prepend2(mk_ctr_name(&rule.name), mk_var("orig"), vars2));
    push_rule(file, q_lhs, q_rhs);
    let f_lhs = mk_quoted_ctr(TermTag::HoasF(rule.name.name.clone()).text(), prepend(mk_var("orig"), vars3));
    let f_rhs = mk_quoted_ctr(crate::tags::eval_ctr(false, TermTag::Fun(n)), prepend2(mk_ctr_name(&rule.name), mk_var("orig"), vars4));
    push_rule(file, f_lhs, f_rhs);
    assert(rule_models(file@) =~= start + fallback_rules(*rule));
}

/// The name of a definition as the single argument of a relation.
fn name_arg(id: &crate::expr::Ident) -> (r: Vec<Term>)
    ensures
        models(r@) == seq![name_ctr(id.name@)],
{
    let r = vec![mk_ctr_name(id)];
    assert(models(r@) =~= seq![name_ctr(id.name@)]);
    r
}

/// The reified form of one equation, for the rules relation.
pub fn codegen_entry_rules(rule: &Equation) -> (r: Term)
    requires
        equation_ok(*rule),
    ensures
        r.model() == reified_equation(*rule),
{
    proof { reveal_strlit("QT"); reveal_strlit("Kind.Rule.rhs"); reveal_strlit("Kind.Rule.lhs"); }
    let mut count: u64 = 0;
    let pats = codegen_spine(true, &mut count, false, &rule.pats);
    let ghost ps = models(pats@);
    let n = pats.len();
    let args = crate::term::duplicate_all(&pats);
    let call = mk_quoted_ctr(numbered("QT", n as u64), prepend2(mk_ctr_name(&rule.name), span_to_num(rule.span), args));
    let end_args = vec![call];
    assert(models(end_args@) =~= seq![quoted("QT"@ + decimal(n as nat), seq![name_ctr(rule.name.name@), span_num(rule.span)] + ps)]);
    let mut acc = mk_ctr(String::from_str("Kind.Rule.rhs"), end_args);
    let mut rest = pats;
    let mut i: usize = n;
    while i > 0
        invariant
            i <= n,
            n == ps.len(),
            rest@.len() == i,
            models(rest@) == ps.subrange(0, i as int),
            acc.model() == reified_chain(rule.name.name@, rule.span, ps, i as nat),
        decreases i,
    {
        let ghost before = rest@;
        let t = rest.pop().unwrap();
        proof {
            assert(models(before)[i - 1] == t.model());
            assert(models(rest@) =~= ps.subrange(0, i as int - 1));
        }
        i = i - 1;
        let pair = vec![t, acc];
        assert(models(pair@) =~= seq![ps[i as int], reified_chain(rule.name.name@, rule.span, ps, i as nat + 1)]);
        acc = mk_ctr(String::from_str("Kind.Rule.lhs"), pair);
    }
    acc
}

/// All rules of one definition.
#[verifier::rlimit(60)]
pub fn codegen_entry(file: &mut Vec<Rule>, entry: &Entry)
    requires
        entry_ok(*entry),
    ensures
        rule_models(final(file)@) == rule_models(old(file)@) + entry_rules(*entry),
{
    proof {
        reveal_strlit("NameOf"); reveal_strlit("HashOf"); reveal_strlit("TypeOf");
        reveal_strlit("Kind.Term.FN"); reveal_strlit("QT"); reveal_strlit("orig"); reveal_strlit("RuleOf");
    }
    let ghost start = rule_models(file@);
    let name = entry.name.name.as_str();
    push_rule(file, mk_ctr(String::from_str("NameOf"), name_arg(&entry.name)), codegen_str(name));
    push_rule(file, mk_ctr(String::from_str("HashOf"), name_arg(&entry.name)), mk_u60(hash_name(name)));
    let tipo = codegen_type(&entry.args, 0, &entry.tipo);
    assert(entry.args@.subrange(0, entry.args@.len() as int) =~= entry.args@);
    push_rule(file, mk_ctr(String::from_str("TypeOf"), name_arg(&entry.name)), tipo);

    let arity = entry.args.len() as u64;
    let vars = make_base_vars(entry.args.len());
    let v2 = crate::term::duplicate_all(&vars);
    let v3 = crate::term::duplicate_all(&vars);
    let v4 = crate::term::duplicate_all(&vars);
    let fn_lhs = mk_quoted_ctr(numbered("Kind.Term.FN", arity), prepend2(mk_ctr_name(&entry.name), mk_var("orig"), vars));
    let fn_rhs = mk_quoted_ctr(TermTag::HoasF(entry.name.name.clone()).text(), prepend(mk_var("orig"), v2));
    push_rule(file, fn_lhs, fn_rhs);
    let qt_lhs = mk_quoted_ctr(numbered("QT", arity), prepend2(mk_ctr_name(&entry.name), mk_var("orig"), v3));
    let qt_rhs = mk_quoted_ctr(TermTag::HoasQ(entry.name.name.clone()).text(), prepend(mk_var("orig"), v4));
    push_rule(file, qt_lhs, qt_rhs);
    let ghost heads = rule_models(file@);
    assert(heads =~= start + entry_rules(*entry).subrange(0, 5));

    let ghost eqs = Seq::new(entry.rules@.len(), |i: int| equation_rules(entry.rules@[i]));
    let mut i: usize = 0;
    while i < entry.rules.len()
        invariant
            i <= entry.rules@.len(),
            entry_ok(*entry),
            eqs == Seq::new(entry.rules@.len(), |i: int| equation_rules(entry.rules@[i])),
            rule_models(file@) == heads + eqs.subrange(0, i as int).flatten(),
        decreases entry.rules@.len() - i,
    {
        codegen_rule(file, &entry.rules[i]);
        proof {
            assert(eqs.subrange(0, i as int + 1) =~= eqs.subrange(0, i as int).push(eqs[i as int]));
            eqs.subrange(0, i as int).lemma_flatten_push(eqs[i as int]);
        }
        i = i + 1;
    }
    assert(eqs.subrange(0, eqs.len() as int) =~= eqs);
    let ghost after_eqs = rule_models(file@);
    if entry.rules.len() > 0 {
        codegen_rule_end(file, &entry.rules[0]);
    }
    let mut reified: Vec<Term> = Vec::new();
    let mut k: usize = 0;
    while k < entry.rules.len()
        invariant
            k <= entry.rules@.len(),
            entry_ok(*entry),
            models(reified@) == Seq::new(k as nat, |j: int| reified_equation(entry.rules@[j])),
        decreases entry.rules@.len() - k,
    {
        let t = codegen_entry_rules(&entry.rules[k]);
        let ghost before = reified@;
        reified.push(t);
        assert(models(reified@) =~= Seq::new(k as nat + 1, |j: int| reified_equation(entry.rules@[j]))) by {
            assert(models(reified@) =~= models(before).push(t.model()));
        }
        k = k + 1;
    }
    let list = codegen_vec(reified);
    push_rule(file, mk_ctr(String::from_str("RuleOf"), name_arg(&entry.name)), list);
    assert(rule_models(file@) =~= start + entry_rules(*entry));
}

/// The rules of every definition of a book, in order, followed by the list
/// of all definition names.
pub open spec fn book_rules(b: Book) -> Seq<RuleV> {
    Seq::new(b.entries@.len(), |i: int| entry_rules(b.entries@[i])).flatten()
        + seq![RuleV {
            lhs: TermV::Ctr("Functions"@, Seq::empty()),
            rhs: list_term(Seq::new(b.entries@.len(), |i: int| name_ctr(b.entries@[i].name.name@))),
        }]
}

/// Compiles every definition of a book to rules for the checker.
pub fn codegen_glossary(book: &Book) -> (r: RuleFile)
    requires
        book_ok(*book),
    ensures
        rule_models(r.rules@) == book_rules(*book),
{
    proof { reveal_strlit("Functions"); }
    let mut file: Vec<Rule> = Vec::new();
    let ghost all = Seq::new(book.entries@.len(), |i: int| entry_rules(book.entries@[i]));
    let mut i: usize = 0;
    assert(rule_models(file@) =~= all.subrange(0, 0).flatten());
    while i < book.entries.len()
        invariant
            i <= book.entries@.len(),
            book_ok(*book),
            all == Seq::new(book.entries@.len(), |i: int| entry_rules(book.entries@[i])),
            rule_models(file@) == all.subrange(0, i as int).flatten(),
        decreases book.entries@.len() - i,
    {
        codegen_entry(&mut file, &book.entries[i]);
        proof {
            assert(all.subrange(0, i as int + 1) =~= all.subrange(0, i as int).push(all[i as int]));
            all.subrange(0, i as int).lemma_flatten_push(all[i as int]);
        }
        i = i + 1;
    }
    assert(all.subrange(0, all.len() as int) =~= all);
    let mut names: Vec<Term> = Vec::new();
    let mut k: usize = 0;
    while k < book.entries.len()
        invariant
            k <= book.entries@.len(),
            models(names@) == Seq::new(k as nat, |j: int| name_ctr(book.entries@[j].name.name@)),
        decreases book.entries@.len() - k,
    {
        let t = mk_ctr_name(&book.entries[k].name);
        let ghost before = names@;
        names.push(t);
        assert(models(names@) =~= Seq::new(k as nat + 1, |j: int| name_ctr(book.entries@[j].name.name@))) by {
            assert(models(names@) =~= models(before).push(t.model()));
        }
        k = k + 1;
    }
    let list = codegen_vec(names);
    push_rule(&mut file, mk_ctr(String::from_str("Functions"), Vec::new()), list);
    assert(models(Seq::<Term>::empty()) =~= Seq::empty());
    assert(rule_models(file@) =~= book_rules(*book));
    RuleFile { rules: file }
}

/// Compiling a book is deterministic: two runs give rules with the same
/// mathematical form.
pub proof fn lemma_codegen_deterministic(b: Book, r1: RuleFile, r2: RuleFile)
    requires
        rule_models(r1.rules@) == book_rules(b),
        rule_models(r2.rules@) == book_rules(b),
    ensures
        rule_models(r1.rules@) == rule_models(r2.rules@),
{
}

} // verus!
