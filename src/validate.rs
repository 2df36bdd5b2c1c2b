//! Checks that a book can be handed to the encoder: no error marker left by
//! an earlier phase, every span packable, pattern counters within range.
use vstd::prelude::*;
use vstd::string::StringExecFns;
use crate::encoder::{all_encodable, all_spans_ok, binder_name, enc, enc_spine, encodable, spans_ok};
use crate::names::{id_of, Collision, NameTable};
use crate::expr::{Argument, Book, Entry, Expr, ExprKind, Rule as Equation};
use crate::rules::{book_ok, entry_ok, equation_ok, expr_ok};
use crate::span::{Span, CTX_LIMIT, OFFSET_LIMIT};

verus! {

broadcast use vstd::std_specs::vec::axiom_vec_index_decreases,
    vstd::std_specs::vec::axiom_vec_decreases_to_view,
    vstd::seq::axiom_seq_index_decreases,
    vstd::seq::axiom_seq_subrange_decreases;

fn span_fits(s: Span) -> (r: bool)
    ensures
        r == s.representable(),
{
    match s {
        Span::Locatable(rg) => rg.start < OFFSET_LIMIT && rg.end < OFFSET_LIMIT && rg.ctx < CTX_LIMIT,
        Span::Generated => true,
    }
}

/// Whether the expression holds no error marker and all its spans pack.
pub fn expr_fits(e: &Expr) -> (r: bool)
    ensures
        r == (encodable(*e) && spans_ok(*e)),
    decreases e, 1nat,
{
    if !span_fits(e.span) {
        return false;
    }
    match &e.data {
        ExprKind::Error => false,
        ExprKind::Var(id) => span_fits(Span::Locatable(id.range)),
        ExprKind::All(_, a, b) | ExprKind::Let(_, a, b) | ExprKind::Ann(a, b) | ExprKind::Binary(_, a, b) =>
            expr_fits(a) && expr_fits(b),
        ExprKind::Lambda(_, b) | ExprKind::Sub(_, _, _, b) => expr_fits(b),
        ExprKind::App(h, sp) => expr_fits(h) && exprs_fit(sp),
        ExprKind::Ctr(_, sp) | ExprKind::Fun(_, sp) => exprs_fit(sp),
        _ => true,
    }
}

/// Whether every expression of the spine fits.
pub fn exprs_fit(es: &Vec<Expr>) -> (r: bool)
    ensures
        r == (all_encodable(es@) && all_spans_ok(es@)),
    decreases es, 0nat,
{
    let mut i: usize = 0;
    assert(es@.subrange(0, 0) =~= Seq::<Expr>::empty());
    while i < es.len()
        invariant
            i <= es@.len(),
            all_encodable(es@.subrange(0, i as int)) && all_spans_ok(es@.subrange(0, i as int)),
        decreases es@.len() - i,
    {
        let ghost pre = es@.subrange(0, i as int + 1);
        assert(pre.drop_last() =~= es@.subrange(0, i as int));
        assert(decreases_to!(es => es@[i as int]));
        if !expr_fits(&es[i]) {
            proof { lemma_prefix_fails(es@, i as int + 1); }
            return false;
        }
        i = i + 1;
    }
    assert(es@.subrange(0, es@.len() as int) =~= es@);
    true
}

/// A spine whose prefix fails fails too.
proof fn lemma_prefix_fails(es: Seq<Expr>, i: int)
    requires
        0 < i <= es.len(),
        !(encodable(es[i - 1]) && spans_ok(es[i - 1])),
    ensures
        !(all_encodable(es) && all_spans_ok(es)),
    decreases es.len() - i,
{
    if i < es.len() {
        let p = es.drop_last();
        assert(p[i - 1] == es[i - 1]);
        lemma_prefix_fails(p, i);
    } else {
        assert(es.last() == es[i - 1]);
    }
}

/// The pattern counter after `e`, starting from `num`, when it fits.
pub fn pattern_count(num: u64, e: &Expr) -> (r: Option<u64>)
    ensures
        r matches Some(n) ==> n as nat == enc(true, num as nat, false, *e).1,
        r is None ==> enc(true, num as nat, false, *e).1 > u64::MAX,
    decreases e, 1nat,
{
    proof { crate::encoder::lemma_counter_grows(true, num as nat, false, *e); }
    match &e.data {
        ExprKind::Var(_) => if num < u64::MAX { Some(num + 1) } else { None },
        ExprKind::All(_, a, b) | ExprKind::Let(_, a, b) | ExprKind::Ann(a, b) | ExprKind::Binary(_, a, b) => {
            match pattern_count(num, a) {
                Some(n1) => pattern_count(n1, b),
                None => {
                    proof { crate::encoder::lemma_counter_grows(true, enc(true, num as nat, false, **a).1, false, **b); }
                    None
                },
            }
        },
        ExprKind::Lambda(_, b) | ExprKind::Sub(_, _, _, b) => pattern_count(num, b),
        ExprKind::App(h, sp) => match pattern_count(num, h) {
            Some(n1) => spine_count(n1, sp),
            None => {
                proof { crate::encoder::lemma_spine_counter_grows(true, enc(true, num as nat, false, **h).1, false, sp@); }
                None
            },
        },
        ExprKind::Ctr(_, sp) | ExprKind::Fun(_, sp) => spine_count(num, sp),
        _ => Some(num),
    }
}

/// The pattern counter after a spine, starting from `num`, when it fits.
pub fn spine_count(num: u64, es: &Vec<Expr>) -> (r: Option<u64>)
    ensures
        r matches Some(n) ==> n as nat == enc_spine(true, num as nat, false, es@).1,
        r is None ==> enc_spine(true, num as nat, false, es@).1 > u64::MAX,
    decreases es, 0nat,
{
    let mut n = num;
    let mut i: usize = 0;
    assert(es@.subrange(0, 0) =~= Seq::<Expr>::empty());
    while i < es.len()
        invariant
            i <= es@.len(),
            n as nat == enc_spine(true, num as nat, false, es@.subrange(0, i as int)).1,
        decreases es@.len() - i,
    {
        let ghost pre = es@.subrange(0, i as int + 1);
        assert(pre.drop_last() =~= es@.subrange(0, i as int));
        assert(decreases_to!(es => es@[i as int]));
        match pattern_count(n, &es[i]) {
            Some(m) => n = m,
            None => {
                proof { lemma_spine_prefix_over(num as nat, es@, i as int + 1); }
                return None;
            },
        }
        i = i + 1;
    }
    assert(es@.subrange(0, es@.len() as int) =~= es@);
    Some(n)
}

proof fn lemma_spine_prefix_over(num: nat, es: Seq<Expr>, i: int)
    requires
        0 < i <= es.len(),
        enc_spine(true, num, false, es.subrange(0, i)).1 > u64::MAX,
    ensures
        enc_spine(true, num, false, es).1 > u64::MAX,
    decreases es.len() - i,
{
    if i < es.len() {
        let p = es.subrange(0, i + 1);
        assert(p.drop_last() =~= es.subrange(0, i));
        crate::encoder::lemma_counter_grows(true, enc_spine(true, num, false, es.subrange(0, i)).1, false, p.last());
        lemma_spine_prefix_over(num, es, i + 1);
    } else {
        assert(es.subrange(0, i) =~= es);
    }
}

fn equation_fits(r: &Equation) -> (b: bool)
    ensures
        b == equation_ok(*r),
{
    exprs_fit(&r.pats) && expr_fits(&r.body) && span_fits(r.span) && spine_count(0, &r.pats).is_some()
}

fn entry_fits(e: &Entry) -> (b: bool)
    ensures
        b == entry_ok(*e),
{
    let mut i: usize = 0;
    while i < e.args.len()
        invariant
            i <= e.args@.len(),
            forall|j: int| 0 <= j < i ==> expr_ok(#[trigger] e.args@[j].tipo) && e.args@[j].span.representable(),
        decreases e.args@.len() - i,
    {
        if !(expr_fits(&e.args[i].tipo) && span_fits(e.args[i].span)) {
            return false;
        }
        i = i + 1;
    }
    if !expr_fits(&e.tipo) {
        return false;
    }
    let mut k: usize = 0;
    while k < e.rules.len()
        invariant
            k <= e.rules@.len(),
            forall|j: int| 0 <= j < e.args@.len() ==> expr_ok(#[trigger] e.args@[j].tipo) && e.args@[j].span.representable(),
            expr_ok(e.tipo),
            forall|j: int| 0 <= j < k ==> equation_ok(#[trigger] e.rules@[j]),
        decreases e.rules@.len() - k,
    {
        if !equation_fits(&e.rules[k]) {
            return false;
        }
        k = k + 1;
    }
    true
}

/// Whether the encoder can take the book. A book that fails holds an error
/// marker, a span too large to pack, or a pattern too large to count.
pub fn check_book(book: &Book) -> (r: bool)
    ensures
        r == book_ok(*book),
{
    let mut i: usize = 0;
    while i < book.entries.len()
        invariant
            i <= book.entries@.len(),
            forall|j: int| 0 <= j < i ==> entry_ok(#[trigger] book.entries@[j]),
        decreases book.entries@.len() - i,
    {
        if !entry_fits(&book.entries[i]) {
            return false;
        }
        i = i + 1;
    }
    true
}

/// The names whose identifiers the encoder writes for `e`, in order.
pub open spec fn expr_names(e: Expr) -> Seq<Seq<char>>
    decreases e, 1nat,
{
    match e.data {
        ExprKind::Var(id) => seq![id.name@],
        ExprKind::All(name, a, b) => seq![binder_name(name)] + expr_names(*a) + expr_names(*b),
        ExprKind::Lambda(id, b) => seq![id.name@] + expr_names(*b),
        ExprKind::App(h, sp) => expr_names(*h) + spine_names(sp@),
        ExprKind::Ctr(_, sp) => spine_names(sp@),
        ExprKind::Fun(_, sp) => spine_names(sp@),
        ExprKind::Let(id, a, b) => seq![id.name@] + expr_names(*a) + expr_names(*b),
        ExprKind::Ann(a, b) => expr_names(*a) + expr_names(*b),
        ExprKind::Binary(_, a, b) => expr_names(*a) + expr_names(*b),
        ExprKind::Sub(id, _, _, a) => seq![id.name@] + expr_names(*a),
        ExprKind::Hlp(id) => seq![id.name@],
        _ => Seq::empty(),
    }
}

pub open spec fn spine_names(es: Seq<Expr>) -> Seq<Seq<char>>
    decreases es, 0nat,
{
    if es.len() == 0 { Seq::empty() } else { spine_names(es.drop_last()) + expr_names(es.last()) }
}

pub open spec fn args_names(args: Seq<Argument>) -> Seq<Seq<char>>
    decreases args.len(),
{
    if args.len() == 0 {
        Seq::empty()
    } else {
        args_names(args.drop_last()) + seq![args.last().name.name@] + expr_names(args.last().tipo)
    }
}

pub open spec fn rules_names(rs: Seq<Equation>) -> Seq<Seq<char>>
    decreases rs.len(),
{
    if rs.len() == 0 {
        Seq::empty()
    } else {
        rules_names(rs.drop_last()) + spine_names(rs.last().pats@) + expr_names(rs.last().body)
    }
}

pub open spec fn entry_names(e: Entry) -> Seq<Seq<char>> {
    args_names(e.args@) + expr_names(e.tipo) + rules_names(e.rules@)
}

pub open spec fn entries_names(es: Seq<Entry>) -> Seq<Seq<char>>
    decreases es.len(),
{
    if es.len() == 0 { Seq::empty() } else { entries_names(es.drop_last()) + entry_names(es.last()) }
}

/// Every name whose identifier the generated rules of the book carry.
pub open spec fn book_names(b: Book) -> Seq<Seq<char>> {
    entries_names(b.entries@)
}

/// No two distinct names of the sequence share an identifier.
pub open spec fn collision_free(ns: Seq<Seq<char>>) -> bool {
    forall|i: int, j: int| 0 <= i < ns.len() && 0 <= j < ns.len() && ns[i] != ns[j]
        ==> id_of(#[trigger] ns[i]) != id_of(#[trigger] ns[j])
}

/// A collision between two distinct names.
pub open spec fn genuine(c: Collision) -> bool {
    c.existing@ != c.incoming@ && id_of(c.existing@) == id_of(c.incoming@) && c.id == id_of(c.incoming@)
}

pub open spec fn strs(v: Seq<String>) -> Seq<Seq<char>> {
    Seq::new(v.len(), |i: int| v[i]@)
}

fn push_name(out: &mut Vec<String>, n: String)
    ensures
        strs(final(out)@) == strs(old(out)@) + seq![n@],
{
    out.push(n);
    assert(strs(final(out)@) =~= strs(old(out)@) + seq![n@]);
}

/// Appends the names of `e` to `out`.
pub fn collect_expr(out: &mut Vec<String>, e: &Expr)
    ensures
        strs(final(out)@) == strs(old(out)@) + expr_names(*e),
    decreases e, 1nat,
{
    proof { reveal_strlit("~"); }
    let ghost o = strs(out@);
    match &e.data {
        ExprKind::Var(id) | ExprKind::Hlp(id) => push_name(out, id.name.clone()),
        ExprKind::All(name, a, b) => {
            let n = match name {
                Some(id) => id.name.clone(),
                None => String::from_str("~"),
            };
            push_name(out, n);
            collect_expr(out, a);
            collect_expr(out, b);
            assert(strs(out@) =~= o + expr_names(*e));
        },
        ExprKind::Let(id, a, b) => {
            push_name(out, id.name.clone());
            collect_expr(out, a);
            collect_expr(out, b);
            assert(strs(out@) =~= o + expr_names(*e));
        },
        ExprKind::Ann(a, b) | ExprKind::Binary(_, a, b) => {
            collect_expr(out, a);
            collect_expr(out, b);
            assert(strs(out@) =~= o + expr_names(*e));
        },
        ExprKind::Lambda(id, b) | ExprKind::Sub(id, _, _, b) => {
            push_name(out, id.name.clone());
            collect_expr(out, b);
            assert(strs(out@) =~= o + expr_names(*e));
        },
        ExprKind::App(h, sp) => {
            collect_expr(out, h);
            collect_spine(out, sp);
            assert(strs(out@) =~= o + expr_names(*e));
        },
        ExprKind::Ctr(_, sp) | ExprKind::Fun(_, sp) => collect_spine(out, sp),
        _ => {
            assert(strs(out@) =~= o + expr_names(*e));
        },
    }
}

/// Appends the names of each expression of a spine to `out`.
pub fn collect_spine(out: &mut Vec<String>, es: &Vec<Expr>)
    ensures
        strs(final(out)@) == strs(old(out)@) + spine_names(es@),
    decreases es, 0nat,
{
    let ghost o = strs(out@);
    let mut i: usize = 0;
    assert(es@.subrange(0, 0) =~= Seq::<Expr>::empty());
    assert(strs(out@) =~= o + spine_names(es@.subrange(0, 0)));
    while i < es.len()
        invariant
            i <= es@.len(),
            o == strs(old(out)@),
            strs(out@) == o + spine_names(es@.subrange(0, i as int)),
        decreases es@.len() - i,
    {
        let ghost pre = es@.subrange(0, i as int + 1);
        assert(pre.drop_last() =~= es@.subrange(0, i as int));
        assert(decreases_to!(es => es@[i as int]));
        collect_expr(out, &es[i]);
        assert(strs(out@) =~= o + spine_names(pre));
        i = i + 1;
    }
    assert(es@.subrange(0, es@.len() as int) =~= es@);
}

fn collect_entry(out: &mut Vec<String>, e: &Entry)
    ensures
        strs(final(out)@) == strs(old(out)@) + entry_names(*e),
{
    let ghost o = strs(out@);
    let mut i: usize = 0;
    assert(strs(out@) =~= o + args_names(e.args@.subrange(0, 0)));
    while i < e.args.len()
        invariant
            i <= e.args@.len(),
            o == strs(old(out)@),
            strs(out@) == o + args_names(e.args@.subrange(0, i as int)),
        decreases e.args@.len() - i,
    {
        let ghost pre = e.args@.subrange(0, i as int + 1);
        assert(pre.drop_last() =~= e.args@.subrange(0, i as int));
        push_name(out, e.args[i].name.name.clone());
        collect_expr(out, &e.args[i].tipo);
        assert(strs(out@) =~= o + args_names(pre));
        i = i + 1;
    }
    assert(e.args@.subrange(0, e.args@.len() as int) =~= e.args@);
    let ghost o2 = strs(out@);
    collect_expr(out, &e.tipo);
    let ghost o3 = strs(out@);
    let mut k: usize = 0;
    assert(strs(out@) =~= o3 + rules_names(e.rules@.subrange(0, 0)));
    while k < e.rules.len()
        invariant
            k <= e.rules@.len(),
            strs(out@) == o3 + rules_names(e.rules@.subrange(0, k as int)),
        decreases e.rules@.len() - k,
    {
        let ghost pre = e.rules@.subrange(0, k as int + 1);
        assert(pre.drop_last() =~= e.rules@.subrange(0, k as int));
        collect_spine(out, &e.rules[k].pats);
        collect_expr(out, &e.rules[k].body);
        assert(strs(out@) =~= o3 + rules_names(pre));
        k = k + 1;
    }
    assert(e.rules@.subrange(0, e.rules@.len() as int) =~= e.rules@);
    assert(strs(out@) =~= o + entry_names(*e));
}

/// The names whose identifiers the generated rules of the book carry.
pub fn collect_book_names(book: &Book) -> (r: Vec<String>)
    ensures
        strs(r@) == book_names(*book),
{
    let mut out: Vec<String> = Vec::new();
    let mut i: usize = 0;
    assert(strs(out@) =~= entries_names(book.entries@.subrange(0, 0)));
    while i < book.entries.len()
        invariant
            i <= book.entries@.len(),
            strs(out@) == entries_names(book.entries@.subrange(0, i as int)),
        decreases book.entries@.len() - i,
    {
        let ghost pre = book.entries@.subrange(0, i as int + 1);
        assert(pre.drop_last() =~= book.entries@.subrange(0, i as int));
        collect_entry(&mut out, &book.entries[i]);
        i = i + 1;
    }
    assert(book.entries@.subrange(0, book.entries@.len() as int) =~= book.entries@);
    out
}

/// Records every name in a fresh table. Succeeds exactly when no two
/// distinct names share an identifier; otherwise reports two such names.
pub fn intern_all(names: &Vec<String>) -> (r: Result<NameTable, Collision>)
    ensures
        r is Ok <==> collision_free(strs(names@)),
        r matches Ok(t) ==> t.wf() && forall|i: int| 0 <= i < names@.len() ==> t.names().contains(#[trigger] strs(names@)[i]),
        r matches Err(c) ==> genuine(c) && strs(names@).contains(c.existing@) && strs(names@).contains(c.incoming@),
{
    let ghost all = strs(names@);
    let mut table = NameTable::new();
    let mut i: usize = 0;
    while i < names.len()
        invariant
            i <= names@.len(),
            all == strs(names@),
            table.wf(),
            forall|k: int| 0 <= k < i ==> table.names().contains(#[trigger] all[k]),
            forall|x: Seq<char>| #[trigger] table.names().contains(x) ==> all.subrange(0, i as int).contains(x),
        decreases names@.len() - i,
    {
        let ghost before = table.names();
        match table.encode_identifier(names[i].as_str()) {
            Ok(_) => {
                proof {
                    let now = table.names();
                    assert(now == crate::names::with_name(before, all[i as int]));
                    if !before.contains(all[i as int]) {
                        assert(now[before.len() as int] == all[i as int]);
                    }
                    assert(now.contains(all[i as int]));
                    assert forall|k: int| 0 <= k < i + 1 implies now.contains(#[trigger] all[k]) by {
                        if k < i && !before.contains(all[i as int]) {
                            let m = choose|m: int| 0 <= m < before.len() && before[m] == all[k];
                            assert(now[m] == all[k]);
                        }
                    }
                    assert forall|x: Seq<char>| #[trigger] now.contains(x) implies all.subrange(0, i as int + 1).contains(x) by {
                        let m = choose|m: int| 0 <= m < now.len() && now[m] == x;
                        if m < before.len() {
                            assert(before[m] == x);
                            assert(before.contains(x));
                            let q = choose|q: int| 0 <= q < i && all.subrange(0, i as int)[q] == x;
                            assert(all.subrange(0, i as int + 1)[q] == x);
                        } else {
                            assert(all.subrange(0, i as int + 1)[i as int] == x);
                        }
                    }
                }
            },
            Err(c) => {
                proof {
                    assert(all.subrange(0, i as int).contains(c.existing@));
                    let q = choose|q: int| 0 <= q < i && all.subrange(0, i as int)[q] == c.existing@;
                    assert(all[q] == c.existing@);
                    assert(all[i as int] == c.incoming@);
                    assert(!collision_free(all));
                }
                return Err(c);
            },
        }
        i = i + 1;
    }
    proof {
        assert forall|a: int, b: int| 0 <= a < all.len() && 0 <= b < all.len() && all[a] != all[b]
            implies id_of(#[trigger] all[a]) != id_of(#[trigger] all[b]) by {
            crate::names::lemma_table_injective(&table, all[a], all[b]);
        }
    }
    Ok(table)
}

} // verus!
