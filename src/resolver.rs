//! The unbound-name and linearity resolver: one forward pass over a surface
//! module with a scope of (range, name) bindings, collecting unresolved local
//! names, unresolved qualified names and names bound twice in one scope.
use vstd::prelude::*;
use vstd::string::StringExecFns;
use crate::expr::Ident;
use crate::span::Range;
use crate::surface::{
    Argument, Binding, Case, CaseBinding, Constructor, Destruct, Entry, Expr, ExprKind, Field,
    Match, Module, Pat, PatKind, QualifiedIdent, RecordType, Rule, Sttm, SumType, TopLevel,
};

verus! {

broadcast use vstd::std_specs::vec::axiom_vec_index_decreases,
    vstd::std_specs::vec::axiom_vec_decreases_to_view,
    vstd::seq::axiom_seq_index_decreases,
    vstd::seq::axiom_seq_subrange_decreases;

/// The resolver's state: the scope, and what it has collected so far.
pub struct ResolveState {
    /// Bindings in scope, innermost last.
    pub ctx: Seq<(Range, Seq<char>)>,
    /// Each occurrence of an unresolved local name.
    pub unbound: Seq<(Seq<char>, Range)>,
    /// Each occurrence of an unresolved qualified name.
    pub unbound_top: Seq<(Seq<char>, Range)>,
    /// Each name bound twice: the first binding, then the second.
    pub repeated: Seq<(Range, Range)>,
}

/// What stays fixed during a pass: the top-level names, and whether
/// repeated bindings are reported.
pub struct ResolveEnv {
    pub defs: Seq<Seq<char>>,
    pub emit: bool,
}

/// The range of the first binding of `n` in the scope.
pub open spec fn find(ctx: Seq<(Range, Seq<char>)>, n: Seq<char>) -> Option<Range>
    decreases ctx.len(),
{
    if ctx.len() == 0 {
        None
    } else if ctx[0].1 == n {
        Some(ctx[0].0)
    } else {
        find(ctx.drop_first(), n)
    }
}

pub open spec fn with_ctx(s: ResolveState, ctx: Seq<(Range, Seq<char>)>) -> ResolveState {
    ResolveState { ctx, ..s }
}

pub open spec fn bind(s: ResolveState, r: Range, n: Seq<char>) -> ResolveState {
    with_ctx(s, s.ctx.push((r, n)))
}

pub open spec fn unbind(s: ResolveState) -> ResolveState {
    if s.ctx.len() > 0 { with_ctx(s, s.ctx.drop_last()) } else { s }
}

/// A local name occurrence: recorded when no binding in scope has its name.
pub open spec fn s_ident(s: ResolveState, id: Ident) -> ResolveState {
    if find(s.ctx, id.name@) is None {
        ResolveState { unbound: s.unbound.push((id.name@, id.range)), ..s }
    } else {
        s
    }
}

/// A qualified name occurrence: recorded when no top-level item has its name.
pub open spec fn s_qual(env: ResolveEnv, s: ResolveState, n: Seq<char>, r: Range) -> ResolveState {
    if !env.defs.contains(n) {
        ResolveState { unbound_top: s.unbound_top.push((n, r)), ..s }
    } else {
        s
    }
}

/// A new binding: reported as repeated when the scope binds the name
/// already, otherwise added to the scope.
pub open spec fn s_bind_new(env: ResolveEnv, s: ResolveState, id: Ident) -> ResolveState {
    match find(s.ctx, id.name@) {
        Some(first) => if env.emit {
            ResolveState { repeated: s.repeated.push((first, id.range)), ..s }
        } else {
            s
        },
        None => bind(s, id.range, id.name@),
    }
}

pub open spec fn segment(base: Seq<char>, seg: Seq<char>) -> Seq<char> {
    base + "."@ + seg
}

pub open spec fn s_argument(env: ResolveEnv, s: ResolveState, a: Argument) -> ResolveState
    decreases a, 1nat,
{
    let s1 = match a.typ {
        Some(t) => s_expr(env, s, t),
        None => s,
    };
    s_bind_new(env, s1, a.name)
}

pub open spec fn s_arguments(env: ResolveEnv, s: ResolveState, args: Seq<Argument>) -> ResolveState
    decreases args, 1nat,
{
    if args.len() == 0 { s } else { s_argument(env, s_arguments(env, s, args.drop_last()), args.last()) }
}

pub open spec fn s_pat(env: ResolveEnv, s: ResolveState, p: Pat) -> ResolveState
    decreases p, 1nat,
{
    match p.data {
        PatKind::Var(id) => s_bind_new(env, s, id),
        PatKind::List(ps) => s_pats(env, s, ps@),
        PatKind::Pair(a, b) => s_pat(env, s_pat(env, s, *a), *b),
        PatKind::App(t, ps) => s_pats(env, s_qual(env, s, t.name@, t.range), ps@),
        _ => s,
    }
}

pub open spec fn s_pats(env: ResolveEnv, s: ResolveState, ps: Seq<Pat>) -> ResolveState
    decreases ps, 1nat,
{
    if ps.len() == 0 { s } else { s_pat(env, s_pats(env, s, ps.drop_last()), ps.last()) }
}

pub open spec fn binding_ident(b: CaseBinding) -> Ident {
    match b {
        CaseBinding::Field(id) => id,
        CaseBinding::Renamed(_, id) => id,
    }
}

pub open spec fn s_case_bindings(s: ResolveState, bs: Seq<CaseBinding>) -> ResolveState
    decreases bs.len(),
{
    if bs.len() == 0 {
        s
    } else {
        let s1 = s_case_bindings(s, bs.drop_last());
        bind(s1, binding_ident(bs.last()).range, binding_ident(bs.last()).name@)
    }
}

pub open spec fn s_destruct(env: ResolveEnv, s: ResolveState, d: Destruct) -> ResolveState {
    match d {
        Destruct::Destruct(_, ty, bs) => {
            let s1 = s_qual(env, s, segment(ty.name@, "open"@), ty.range);
            let s2 = s_qual(env, s1, ty.name@, ty.range);
            s_case_bindings(s2, bs@)
        },
        Destruct::Ident(id) => bind(s, id.range, id.name@),
    }
}

pub open spec fn s_sttm(env: ResolveEnv, s: ResolveState, st: Sttm) -> ResolveState
    decreases st, 1nat,
{
    match st {
        Sttm::Ask(d, val, next) => {
            let s1 = s_expr(env, s, *val);
            let s2 = s_sttm(env, s_destruct(env, s1, d), *next);
            with_ctx(s2, s1.ctx)
        },
        Sttm::Let(d, val, next) => {
            let s1 = s_expr(env, s, *val);
            let s2 = s_sttm(env, s_destruct(env, s1, d), *next);
            with_ctx(s2, s1.ctx)
        },
        Sttm::Expr(e, next) => s_sttm(env, s_expr(env, s, *e), *next),
        Sttm::Return(e) => s_expr(env, s, *e),
        Sttm::RetExpr(e) => s_expr(env, s, *e),
    }
}

pub open spec fn s_case(env: ResolveEnv, s: ResolveState, c: Case) -> ResolveState
    decreases c, 1nat,
{
    let s1 = s_expr(env, s_case_bindings(s, c.bindings@), c.value);
    with_ctx(s1, s.ctx)
}

pub open spec fn s_cases(env: ResolveEnv, s: ResolveState, cs: Seq<Case>) -> ResolveState
    decreases cs, 1nat,
{
    if cs.len() == 0 { s } else { s_case(env, s_cases(env, s, cs.drop_last()), cs.last()) }
}

pub open spec fn s_match(env: ResolveEnv, s: ResolveState, m: Match) -> ResolveState
    decreases m, 1nat,
{
    let s1 = s_cases(env, s_expr(env, s, *m.scrutinizer), m.cases@);
    match m.motive {
        Some(x) => s_expr(env, s1, *x),
        None => s1,
    }
}

pub open spec fn s_binding(env: ResolveEnv, s: ResolveState, b: Binding) -> ResolveState
    decreases b, 1nat,
{
    match b {
        Binding::Positional(e) => s_expr(env, s, e),
        Binding::Named(_, e) => s_expr(env, s, e),
    }
}

pub open spec fn s_bindings(env: ResolveEnv, s: ResolveState, bs: Seq<Binding>) -> ResolveState
    decreases bs, 1nat,
{
    if bs.len() == 0 { s } else { s_binding(env, s_bindings(env, s, bs.drop_last()), bs.last()) }
}

pub open spec fn s_exprs(env: ResolveEnv, s: ResolveState, es: Seq<Expr>) -> ResolveState
    decreases es, 1nat,
{
    if es.len() == 0 { s } else { s_expr(env, s_exprs(env, s, es.drop_last()), es.last()) }
}

/// The pass over one expression. Binders extend the scope for their body
/// only; sugar forms count as uses of the items they expand to.
pub open spec fn s_expr(env: ResolveEnv, s: ResolveState, e: Expr) -> ResolveState
    decreases e, 0nat,
{
    match e.data {
        ExprKind::Var(id) => s_ident(s, id),
        ExprKind::Constr(q, spine) => s_bindings(env, s_qual(env, s, q.name@, q.range), spine@),
        ExprKind::All(name, typ, body) => {
            let s1 = s_expr(env, s, *typ);
            match name {
                Some(id) => unbind(s_expr(env, bind(s1, id.range, id.name@), *body)),
                None => s_expr(env, s1, *body),
            }
        },
        ExprKind::Lambda(id, binder, body, _) => {
            let s1 = match binder {
                Some(b) => s_expr(env, s, *b),
                None => s,
            };
            unbind(s_expr(env, bind(s1, id.range, id.name@), *body))
        },
        ExprKind::App(head, spine) => s_exprs(env, s_expr(env, s, *head), spine@),
        ExprKind::Ann(v, t) => s_expr(env, s_expr(env, s, *v), *t),
        ExprKind::Lit(_) => s,
        ExprKind::Binary(_, l, r) => s_expr(env, s_expr(env, s, *l), *r),
        ExprKind::Let(d, val, body) => {
            let s1 = s_expr(env, s, *val);
            let s2 = s_expr(env, s_destruct(env, s1, d), *body);
            with_ctx(s2, s1.ctx)
        },
        ExprKind::Sigma(name, typ, body) => {
            let s0 = s_qual(env, s, "Sigma.new"@, e.range);
            let s1 = s_expr(env, s0, *typ);
            match name {
                Some(id) => unbind(s_expr(env, bind(s1, id.range, id.name@), *body)),
                None => s_expr(env, s1, *body),
            }
        },
        ExprKind::Match(m) => s_match(env, s_qual(env, s, segment(m.typ.name@, "match"@), m.typ.range), *m),
        ExprKind::Subst(id, _, inner) => s_expr(env, s_ident(s, id), *inner),
        ExprKind::Hole => s,
        ExprKind::Do(typ, sttm) => {
            let s1 = s_qual(env, s, segment(typ.name@, "pure"@), typ.range);
            let s2 = s_qual(env, s1, segment(typ.name@, "bind"@), typ.range);
            s_sttm(env, s2, *sttm)
        },
        ExprKind::If(c, t, f) => {
            let s1 = s_qual(env, s, "Bool.if"@, e.range);
            s_expr(env, s_expr(env, s_expr(env, s1, *c), *t), *f)
        },
        ExprKind::Pair(l, r) => {
            let s1 = s_qual(env, s, "Pair.new"@, e.range);
            s_expr(env, s_expr(env, s1, *l), *r)
        },
        ExprKind::List(items) => {
            let s1 = s_qual(env, s, "List.nil"@, e.range);
            let s2 = s_qual(env, s1, "List.cons"@, e.range);
            s_exprs(env, s2, items@)
        },
    }
}

pub open spec fn s_rule(env: ResolveEnv, s: ResolveState, r: Rule) -> ResolveState {
    with_ctx(s_expr(env, s_pats(env, s, r.pats@), r.body), s.ctx)
}

pub open spec fn s_rules(env: ResolveEnv, s: ResolveState, rs: Seq<Rule>) -> ResolveState
    decreases rs.len(),
{
    if rs.len() == 0 { s } else { s_rule(env, s_rules(env, s, rs.drop_last()), rs.last()) }
}

/// Parameters and type in their own scope, then each rule in the outer one.
pub open spec fn s_entry(env: ResolveEnv, s: ResolveState, e: Entry) -> ResolveState {
    let s1 = s_expr(env, s_arguments(env, s, e.args@), e.typ);
    s_rules(env, with_ctx(s1, s.ctx), e.rules@)
}

/// Each constructor starts again from the scope `inside`.
pub open spec fn s_constructor(env: ResolveEnv, s: ResolveState, inside: Seq<(Range, Seq<char>)>, c: Constructor) -> ResolveState {
    let s1 = s_arguments(env, with_ctx(s, inside), c.args@);
    match c.typ {
        Some(t) => s_expr(env, s1, t),
        None => s1,
    }
}

pub open spec fn s_constructors(env: ResolveEnv, s: ResolveState, inside: Seq<(Range, Seq<char>)>, cs: Seq<Constructor>) -> ResolveState
    decreases cs.len(),
{
    if cs.len() == 0 { s } else { s_constructor(env, s_constructors(env, s, inside, cs.drop_last()), inside, cs.last()) }
}

pub open spec fn s_fields(env: ResolveEnv, s: ResolveState, fs: Seq<Field>) -> ResolveState
    decreases fs.len(),
{
    if fs.len() == 0 { s } else { s_expr(env, s_fields(env, s, fs.drop_last()), fs.last().typ) }
}

/// The qualified names of a sum type's constructors.
pub open spec fn constructor_names(sum: SumType) -> Seq<Seq<char>> {
    Seq::new(sum.constructors@.len(), |i: int| segment(sum.name.name@, sum.constructors@[i].name.name@))
}

pub open spec fn has_repeated_constructor(sum: SumType) -> bool {
    exists|i: int, j: int| 0 <= i < j < sum.constructors@.len()
        && (#[trigger] sum.constructors@[i]).name.name@ == (#[trigger] sum.constructors@[j]).name.name@
}

/// The pass over one top-level item. A sum type binds its constructor
/// names while its parameters and constructors are visited; afterwards the
/// scope is the one from before the item.
pub open spec fn s_top_level(env: ResolveEnv, s: ResolveState, t: TopLevel) -> ResolveState {
    match t {
        TopLevel::SumType(sum) => {
            let names = constructor_names(sum);
            let s0 = with_ctx(s, s.ctx + Seq::new(names.len(), |i: int| (sum.name.range, names[i])));
            if has_repeated_constructor(sum) {
                s
            } else {
                let s1 = s_arguments(env, s0, sum.parameters@);
                let s2 = s_arguments(env, s1, sum.indices@);
                let s3 = s_constructors(env, s2, s1.ctx, sum.constructors@);
                with_ctx(s3, s.ctx)
            }
        },
        TopLevel::RecordType(rec) => {
            let s1 = s_fields(env, s_arguments(env, s, rec.parameters@), rec.fields@);
            with_ctx(s1, s.ctx)
        },
        TopLevel::Entry(e) => s_entry(env, s, e),
    }
}

pub open spec fn s_top_levels(env: ResolveEnv, s: ResolveState, ts: Seq<TopLevel>) -> ResolveState
    decreases ts.len(),
{
    if ts.len() == 0 { s } else { s_top_level(env, s_top_levels(env, s, ts.drop_last()), ts.last()) }
}

/// The names that a top-level item declares, its constructors included.
pub open spec fn declared_names(t: TopLevel) -> Seq<Seq<char>> {
    match t {
        TopLevel::SumType(sum) => seq![sum.name.name@] + constructor_names(sum),
        TopLevel::RecordType(rec) => seq![rec.name.name@, segment(rec.name.name@, rec.constructor.name@)],
        TopLevel::Entry(e) => seq![e.name.name@],
    }
}

pub open spec fn module_names(ts: Seq<TopLevel>) -> Seq<Seq<char>>
    decreases ts.len(),
{
    if ts.len() == 0 { Seq::empty() } else { module_names(ts.drop_last()) + declared_names(ts.last()) }
}

pub open spec fn empty_state() -> ResolveState {
    ResolveState { ctx: Seq::empty(), unbound: Seq::empty(), unbound_top: Seq::empty(), repeated: Seq::empty() }
}

/// The whole pass over a module: every top-level name first, then each item.
pub open spec fn resolve_module(m: Module, emit: bool) -> ResolveState {
    s_top_levels(ResolveEnv { defs: module_names(m.entries@), emit }, empty_state(), m.entries@)
}

/// The state of one pass of the resolver.
pub struct UnboundCollector {
    /// Bindings in scope, innermost last.
    pub context_vars: Vec<(Range, String)>,
    /// Every top-level name of the module.
    pub top_level_defs: Vec<String>,
    /// Each occurrence of an unresolved local name.
    pub unbound: Vec<Ident>,
    /// Each occurrence of an unresolved qualified name.
    pub unbound_top_level: Vec<QualifiedIdent>,
    /// Repeated bindings: the first binding's range, then the second's.
    pub repeated: Vec<(Range, Range)>,
    /// Whether repeated bindings are reported.
    pub emit_errs: bool,
}

pub open spec fn ctx_model(v: Seq<(Range, String)>) -> Seq<(Range, Seq<char>)> {
    Seq::new(v.len(), |i: int| (v[i].0, v[i].1@))
}

impl UnboundCollector {
    pub open spec fn st(&self) -> ResolveState {
        ResolveState {
            ctx: ctx_model(self.context_vars@),
            unbound: Seq::new(self.unbound@.len(), |i: int| (self.unbound@[i].name@, self.unbound@[i].range)),
            unbound_top: Seq::new(self.unbound_top_level@.len(), |i: int| (self.unbound_top_level@[i].name@, self.unbound_top_level@[i].range)),
            repeated: self.repeated@,
        }
    }

    pub open spec fn env(&self) -> ResolveEnv {
        ResolveEnv { defs: Seq::new(self.top_level_defs@.len(), |i: int| self.top_level_defs@[i]@), emit: self.emit_errs }
    }

    /// A collector with an empty scope and nothing collected.
    pub fn new(emit_errs: bool) -> (r: UnboundCollector)
        ensures
            r.st() == empty_state(),
            r.env() == (ResolveEnv { defs: Seq::empty(), emit: emit_errs }),
    {
        let r = UnboundCollector {
            context_vars: Vec::new(),
            top_level_defs: Vec::new(),
            unbound: Vec::new(),
            unbound_top_level: Vec::new(),
            repeated: Vec::new(),
            emit_errs,
        };
        assert(r.st().ctx =~= Seq::empty());
        assert(r.st().unbound =~= Seq::empty());
        assert(r.st().unbound_top =~= Seq::empty());
        assert(r.st().repeated =~= Seq::empty());
        assert(r.env().defs =~= Seq::<Seq<char>>::empty());
        r
    }

    /// The range of the first binding of `name` in scope.
    fn find_ctx(&self, name: &str) -> (r: Option<Range>)
        ensures
            r == find(self.st().ctx, name@),
    {
        let ghost ctx = self.st().ctx;
        let mut i: usize = 0;
        assert(ctx.subrange(0, ctx.len() as int) =~= ctx);
        while i < self.context_vars.len()
            invariant
                i <= ctx.len(),
                ctx == self.st().ctx,
                find(ctx, name@) == find(ctx.subrange(i as int, ctx.len() as int), name@),
            decreases ctx.len() - i,
        {
            let ghost rest = ctx.subrange(i as int, ctx.len() as int);
            assert(rest[0] == ctx[i as int]);
            assert(rest.drop_first() =~= ctx.subrange(i as int + 1, ctx.len() as int));
            let incoming = String::from_str(name);
            if self.context_vars[i].1 == incoming {
                return Some(self.context_vars[i].0);
            }
            i = i + 1;
        }
        None
    }

    /// Whether a top-level item has this name.
    fn is_defined(&self, name: &String) -> (r: bool)
        ensures
            r == self.env().defs.contains(name@),
    {
        let mut i: usize = 0;
        while i < self.top_level_defs.len()
            invariant
                i <= self.top_level_defs@.len(),
                forall|j: int| 0 <= j < i ==> self.env().defs[j] != name@,
            decreases self.top_level_defs@.len() - i,
        {
            if self.top_level_defs[i] == *name {
                assert(self.env().defs[i as int] == name@);
                return true;
            }
            i = i + 1;
        }
        false
    }

    fn push_ctx(&mut self, range: Range, name: String)
        ensures
            final(self).st() == bind(old(self).st(), range, name@),
            final(self).env() == old(self).env(),
    {
        self.context_vars.push((range, name));
        assert(final(self).st().ctx =~= old(self).st().ctx.push((range, name@)));
        assert(final(self).st() =~= bind(old(self).st(), range, name@));
    }

    fn pop_ctx(&mut self)
        ensures
            final(self).st() == unbind(old(self).st()),
            final(self).env() == old(self).env(),
    {
        if self.context_vars.len() > 0 {
            self.context_vars.pop();
            assert(final(self).st().ctx =~= old(self).st().ctx.drop_last());
        }
        assert(final(self).st() =~= unbind(old(self).st()));
    }

    /// A copy of the scope, to restore later.
    fn save_ctx(&self) -> (r: Vec<(Range, String)>)
        ensures
            ctx_model(r@) == self.st().ctx,
    {
        let mut out: Vec<(Range, String)> = Vec::new();
        let mut i: usize = 0;
        while i < self.context_vars.len()
            invariant
                i <= self.context_vars@.len(),
                out@.len() == i,
                forall|j: int| 0 <= j < i ==> (#[trigger] out@[j]).0 == self.context_vars@[j].0 && out@[j].1@ == self.context_vars@[j].1@,
            decreases self.context_vars@.len() - i,
        {
            out.push((self.context_vars[i].0, self.context_vars[i].1.clone()));
            i = i + 1;
        }
        assert(ctx_model(out@) =~= self.st().ctx);
        out
    }

    fn restore_ctx(&mut self, saved: Vec<(Range, String)>)
        ensures
            final(self).st() == with_ctx(old(self).st(), ctx_model(saved@)),
            final(self).env() == old(self).env(),
    {
        self.context_vars = saved;
        assert(final(self).st() =~= with_ctx(old(self).st(), ctx_model(saved@)));
    }

    /// A use of a local name.
    pub fn visit_ident(&mut self, id: &Ident)
        ensures
            final(self).st() == s_ident(old(self).st(), *id),
            final(self).env() == old(self).env(),
    {
        if self.find_ctx(id.name.as_str()).is_none() {
            self.unbound.push(Ident { name: id.name.clone(), range: id.range });
            assert(final(self).st().unbound =~= old(self).st().unbound.push((id.name@, id.range)));
        }
        assert(final(self).st() =~= s_ident(old(self).st(), *id));
    }

    /// A use of a qualified name.
    pub fn visit_qualified(&mut self, name: String, range: Range)
        ensures
            final(self).st() == s_qual(old(self).env(), old(self).st(), name@, range),
            final(self).env() == old(self).env(),
    {
        if !self.is_defined(&name) {
            let ghost n = name@;
            self.unbound_top_level.push(QualifiedIdent { name, range });
            assert(final(self).st().unbound_top =~= old(self).st().unbound_top.push((n, range)));
        }
        assert(final(self).st() =~= s_qual(old(self).env(), old(self).st(), name@, range));
    }

    /// A new binding of a pattern variable or a parameter.
    pub fn visit_pat_ident(&mut self, id: &Ident)
        ensures
            final(self).st() == s_bind_new(old(self).env(), old(self).st(), *id),
            final(self).env() == old(self).env(),
    {
        match self.find_ctx(id.name.as_str()) {
            Some(first) => {
                if self.emit_errs {
                    self.repeated.push((first, id.range));
                }
                assert(final(self).st() =~= s_bind_new(old(self).env(), old(self).st(), *id));
            },
            None => {
                self.push_ctx(id.range, id.name.clone());
            },
        }
    }

    /// Parameters, each binding its name after its type.
    pub fn visit_arguments(&mut self, xs: &Vec<Argument>)
        ensures
            final(self).st() == s_arguments(old(self).env(), old(self).st(), xs@),
            final(self).env() == old(self).env(),
        decreases xs, 1nat,
    {
        let ghost env = self.env();
        let ghost s0 = self.st();
        let mut i: usize = 0;
        assert(xs@.subrange(0, 0) =~= Seq::<Argument>::empty());
        while i < xs.len()
            invariant
                i <= xs@.len(),
                self.env() == env,
                self.st() == s_arguments(env, s0, xs@.subrange(0, i as int)),
            decreases xs@.len() - i,
        {
            proof {
                let pre = xs@.subrange(0, i as int + 1);
                assert(pre.drop_last() =~= xs@.subrange(0, i as int));
                assert(decreases_to!(xs => xs@[i as int]));
            }
            self.visit_argument(&xs[i]);
            i = i + 1;
        }
        assert(xs@.subrange(0, xs@.len() as int) =~= xs@);
    }

    /// Patterns, left to right.
    pub fn visit_pats(&mut self, xs: &Vec<Pat>)
        ensures
            final(self).st() == s_pats(old(self).env(), old(self).st(), xs@),
            final(self).env() == old(self).env(),
        decreases xs, 1nat,
    {
        let ghost env = self.env();
        let ghost s0 = self.st();
        let mut i: usize = 0;
        assert(xs@.subrange(0, 0) =~= Seq::<Pat>::empty());
        while i < xs.len()
            invariant
                i <= xs@.len(),
                self.env() == env,
                self.st() == s_pats(env, s0, xs@.subrange(0, i as int)),
            decreases xs@.len() - i,
        {
            proof {
                let pre = xs@.subrange(0, i as int + 1);
                assert(pre.drop_last() =~= xs@.subrange(0, i as int));
                assert(decreases_to!(xs => xs@[i as int]));
            }
            self.visit_pat(&xs[i]);
            i = i + 1;
        }
        assert(xs@.subrange(0, xs@.len() as int) =~= xs@);
    }

    /// Cases of a match.
    pub fn visit_cases(&mut self, xs: &Vec<Case>)
        ensures
            final(self).st() == s_cases(old(self).env(), old(self).st(), xs@),
            final(self).env() == old(self).env(),
        decreases xs, 1nat,
    {
        let ghost env = self.env();
        let ghost s0 = self.st();
        let mut i: usize = 0;
        assert(xs@.subrange(0, 0) =~= Seq::<Case>::empty());
        while i < xs.len()
            invariant
                i <= xs@.len(),
                self.env() == env,
                self.st() == s_cases(env, s0, xs@.subrange(0, i as int)),
            decreases xs@.len() - i,
        {
            proof {
                let pre = xs@.subrange(0, i as int + 1);
                assert(pre.drop_last() =~= xs@.subrange(0, i as int));
                assert(decreases_to!(xs => xs@[i as int]));
            }
            self.visit_case(&xs[i]);
            i = i + 1;
        }
        assert(xs@.subrange(0, xs@.len() as int) =~= xs@);
    }

    /// Arguments of a constructor call.
    pub fn visit_bindings(&mut self, xs: &Vec<Binding>)
        ensures
            final(self).st() == s_bindings(old(self).env(), old(self).st(), xs@),
            final(self).env() == old(self).env(),
        decreases xs, 1nat,
    {
        let ghost env = self.env();
        let ghost s0 = self.st();
        let mut i: usize = 0;
        assert(xs@.subrange(0, 0) =~= Seq::<Binding>::empty());
        while i < xs.len()
            invariant
                i <= xs@.len(),
                self.env() == env,
                self.st() == s_bindings(env, s0, xs@.subrange(0, i as int)),
            decreases xs@.len() - i,
        {
            proof {
                let pre = xs@.subrange(0, i as int + 1);
                assert(pre.drop_last() =~= xs@.subrange(0, i as int));
                assert(decreases_to!(xs => xs@[i as int]));
            }
            self.visit_binding(&xs[i]);
            i = i + 1;
        }
        assert(xs@.subrange(0, xs@.len() as int) =~= xs@);
    }

    /// Expressions, left to right.
    pub fn visit_exprs(&mut self, xs: &Vec<Expr>)
        ensures
            final(self).st() == s_exprs(old(self).env(), old(self).st(), xs@),
            final(self).env() == old(self).env(),
        decreases xs, 1nat,
    {
        let ghost env = self.env();
        let ghost s0 = self.st();
        let mut i: usize = 0;
        assert(xs@.subrange(0, 0) =~= Seq::<Expr>::empty());
        while i < xs.len()
            invariant
                i <= xs@.len(),
                self.env() == env,
                self.st() == s_exprs(env, s0, xs@.subrange(0, i as int)),
            decreases xs@.len() - i,
        {
            proof {
                let pre = xs@.subrange(0, i as int + 1);
                assert(pre.drop_last() =~= xs@.subrange(0, i as int));
                assert(decreases_to!(xs => xs@[i as int]));
            }
            self.visit_expr(&xs[i]);
            i = i + 1;
        }
        assert(xs@.subrange(0, xs@.len() as int) =~= xs@);
    }

    /// Rules of a definition.
    pub fn visit_rules(&mut self, xs: &Vec<Rule>)
        ensures
            final(self).st() == s_rules(old(self).env(), old(self).st(), xs@),
            final(self).env() == old(self).env(),
    {
        let ghost env = self.env();
        let ghost s0 = self.st();
        let mut i: usize = 0;
        assert(xs@.subrange(0, 0) =~= Seq::<Rule>::empty());
        while i < xs.len()
            invariant
                i <= xs@.len(),
                self.env() == env,
                self.st() == s_rules(env, s0, xs@.subrange(0, i as int)),
            decreases xs@.len() - i,
        {
            proof {
                let pre = xs@.subrange(0, i as int + 1);
                assert(pre.drop_last() =~= xs@.subrange(0, i as int));
            }
            self.visit_rule(&xs[i]);
            i = i + 1;
        }
        assert(xs@.subrange(0, xs@.len() as int) =~= xs@);
    }

    /// Field types of a record.
    pub fn visit_fields(&mut self, xs: &Vec<Field>)
        ensures
            final(self).st() == s_fields(old(self).env(), old(self).st(), xs@),
            final(self).env() == old(self).env(),
    {
        let ghost env = self.env();
        let ghost s0 = self.st();
        let mut i: usize = 0;
        assert(xs@.subrange(0, 0) =~= Seq::<Field>::empty());
        while i < xs.len()
            invariant
                i <= xs@.len(),
                self.env() == env,
                self.st() == s_fields(env, s0, xs@.subrange(0, i as int)),
            decreases xs@.len() - i,
        {
            proof {
                let pre = xs@.subrange(0, i as int + 1);
                assert(pre.drop_last() =~= xs@.subrange(0, i as int));
            }
            self.visit_expr(&xs[i].typ);
            i = i + 1;
        }
        assert(xs@.subrange(0, xs@.len() as int) =~= xs@);
    }

    /// Fields bound by a case or a destructuring.
    pub fn visit_case_bindings(&mut self, xs: &Vec<CaseBinding>)
        ensures
            final(self).st() == s_case_bindings(old(self).st(), xs@),
            final(self).env() == old(self).env(),
    {
        let ghost env = self.env();
        let ghost s0 = self.st();
        let mut i: usize = 0;
        assert(xs@.subrange(0, 0) =~= Seq::<CaseBinding>::empty());
        while i < xs.len()
            invariant
                i <= xs@.len(),
                self.env() == env,
                self.st() == s_case_bindings(s0, xs@.subrange(0, i as int)),
            decreases xs@.len() - i,
        {
            proof {
                let pre = xs@.subrange(0, i as int + 1);
                assert(pre.drop_last() =~= xs@.subrange(0, i as int));
            }
            let id = match &xs[i] {
                CaseBinding::Field(id) => id,
                CaseBinding::Renamed(_, id) => id,
            };
            self.push_ctx(id.range, id.name.clone());
            i = i + 1;
        }
        assert(xs@.subrange(0, xs@.len() as int) =~= xs@);
    }

    pub fn visit_argument(&mut self, a: &Argument)
        ensures
            final(self).st() == s_argument(old(self).env(), old(self).st(), *a),
            final(self).env() == old(self).env(),
        decreases a, 1nat,
    {
        match &a.typ {
            Some(t) => self.visit_expr(t),
            None => {},
        }
        self.visit_pat_ident(&a.name);
    }

    pub fn visit_pat(&mut self, p: &Pat)
        ensures
            final(self).st() == s_pat(old(self).env(), old(self).st(), *p),
            final(self).env() == old(self).env(),
        decreases p, 1nat,
    {
        match &p.data {
            PatKind::Var(id) => self.visit_pat_ident(id),
            PatKind::List(ps) => self.visit_pats(ps),
            PatKind::Pair(a, b) => {
                self.visit_pat(a);
                self.visit_pat(b);
            },
            PatKind::App(t, ps) => {
                self.visit_qualified(t.name.clone(), t.range);
                self.visit_pats(ps);
            },
            _ => {},
        }
    }

    pub fn visit_destruct(&mut self, d: &Destruct)
        ensures
            final(self).st() == s_destruct(old(self).env(), old(self).st(), *d),
            final(self).env() == old(self).env(),
    {
        match d {
            Destruct::Destruct(_, ty, bs) => {
                proof { reveal_strlit(".open"); }
                self.visit_qualified(ty.name.clone().concat(".open"), ty.range);
                assert(ty.name@ + ".open"@ =~= segment(ty.name@, "open"@)) by { reveal_strlit("."); reveal_strlit("open"); }
                self.visit_qualified(ty.name.clone(), ty.range);
                self.visit_case_bindings(bs);
            },
            Destruct::Ident(id) => self.push_ctx(id.range, id.name.clone()),
        }
    }

    pub fn visit_sttm(&mut self, st: &Sttm)
        ensures
            final(self).st() == s_sttm(old(self).env(), old(self).st(), *st),
            final(self).env() == old(self).env(),
        decreases st, 1nat,
    {
        match st {
            Sttm::Ask(d, val, next) | Sttm::Let(d, val, next) => {
                self.visit_expr(val);
                let vars = self.save_ctx();
                self.visit_destruct(d);
                self.visit_sttm(next);
                self.restore_ctx(vars);
            },
            Sttm::Expr(e, next) => {
                self.visit_expr(e);
                self.visit_sttm(next);
            },
            Sttm::Return(e) | Sttm::RetExpr(e) => self.visit_expr(e),
        }
    }

    pub fn visit_case(&mut self, c: &Case)
        ensures
            final(self).st() == s_case(old(self).env(), old(self).st(), *c),
            final(self).env() == old(self).env(),
        decreases c, 1nat,
    {
        let vars = self.save_ctx();
        self.visit_case_bindings(&c.bindings);
        self.visit_expr(&c.value);
        self.restore_ctx(vars);
    }

    pub fn visit_match(&mut self, m: &Match)
        ensures
            final(self).st() == s_match(old(self).env(), old(self).st(), *m),
            final(self).env() == old(self).env(),
        decreases m, 1nat,
    {
        self.visit_expr(&m.scrutinizer);
        self.visit_cases(&m.cases);
        match &m.motive {
            Some(x) => self.visit_expr(x),
            None => {},
        }
    }

    pub fn visit_binding(&mut self, b: &Binding)
        ensures
            final(self).st() == s_binding(old(self).env(), old(self).st(), *b),
            final(self).env() == old(self).env(),
        decreases b, 1nat,
    {
        match b {
            Binding::Positional(e) => self.visit_expr(e),
            Binding::Named(_, e) => self.visit_expr(e),
        }
    }

    /// Forms that bind a name for their body.
    fn visit_binder_expr(&mut self, e: &Expr)
        requires
            e.data is All || e.data is Lambda || e.data is Let || e.data is Sigma,
        ensures
            final(self).st() == s_expr(old(self).env(), old(self).st(), *e),
            final(self).env() == old(self).env(),
        decreases e, 1nat,
    {
        match &e.data {
            ExprKind::All(name, typ, body) => {
                self.visit_expr(typ);
                match name {
                    Some(id) => {
                        self.push_ctx(id.range, id.name.clone());
                        self.visit_expr(body);
                        self.pop_ctx();
                    },
                    None => self.visit_expr(body),
                }
            },
            ExprKind::Lambda(id, binder, body, _) => {
                match binder {
                    Some(x) => self.visit_expr(x),
                    None => {},
                }
                self.push_ctx(id.range, id.name.clone());
                self.visit_expr(body);
                self.pop_ctx();
            },
            ExprKind::Let(d, val, body) => {
                self.visit_expr(val);
                let vars = self.save_ctx();
                self.visit_destruct(d);
                self.visit_expr(body);
                self.restore_ctx(vars);
            },
            ExprKind::Sigma(name, typ, body) => {
                proof { reveal_strlit("Sigma.new"); }
                self.visit_qualified(String::from_str("Sigma.new"), e.range);
                self.visit_expr(typ);
                match name {
                    Some(id) => {
                        self.push_ctx(id.range, id.name.clone());
                        self.visit_expr(body);
                        self.pop_ctx();
                    },
                    None => self.visit_expr(body),
                }
            },
            _ => {},
        }
    }

    /// Sugar forms, each a use of the items it expands to.
    fn visit_sugar_expr(&mut self, e: &Expr)
        requires
            e.data is Match || e.data is Do || e.data is If || e.data is Pair || e.data is List,
        ensures
            final(self).st() == s_expr(old(self).env(), old(self).st(), *e),
            final(self).env() == old(self).env(),
        decreases e, 1nat,
    {
        proof {
            reveal_strlit(".match"); reveal_strlit(".pure"); reveal_strlit(".bind"); reveal_strlit(".");
            reveal_strlit("match"); reveal_strlit("pure"); reveal_strlit("bind");
            reveal_strlit("Bool.if"); reveal_strlit("Pair.new"); reveal_strlit("List.nil"); reveal_strlit("List.cons");
        }
        match &e.data {
            ExprKind::Match(m) => {
                assert(m.typ.name@ + ".match"@ =~= segment(m.typ.name@, "match"@));
                self.visit_qualified(m.typ.name.clone().concat(".match"), m.typ.range);
                self.visit_match(m);
            },
            ExprKind::Do(typ, sttm) => {
                assert(typ.name@ + ".pure"@ =~= segment(typ.name@, "pure"@));
                assert(typ.name@ + ".bind"@ =~= segment(typ.name@, "bind"@));
                self.visit_qualified(typ.name.clone().concat(".pure"), typ.range);
                self.visit_qualified(typ.name.clone().concat(".bind"), typ.range);
                self.visit_sttm(sttm);
            },
            ExprKind::If(c, t, f) => {
                self.visit_qualified(String::from_str("Bool.if"), e.range);
                self.visit_expr(c);
                self.visit_expr(t);
                self.visit_expr(f);
            },
            ExprKind::Pair(l, r) => {
                self.visit_qualified(String::from_str("Pair.new"), e.range);
                self.visit_expr(l);
                self.visit_expr(r);
            },
            ExprKind::List(items) => {
                self.visit_qualified(String::from_str("List.nil"), e.range);
                self.visit_qualified(String::from_str("List.cons"), e.range);
                self.visit_exprs(items);
            },
            _ => {},
        }
    }

    /// The pass over one expression.
    pub fn visit_expr(&mut self, e: &Expr)
        ensures
            final(self).st() == s_expr(old(self).env(), old(self).st(), *e),
            final(self).env() == old(self).env(),
        decreases e, 2nat,
    {
        match &e.data {
            ExprKind::Var(id) => self.visit_ident(id),
            ExprKind::Constr(q, spine) => {
                self.visit_qualified(q.name.clone(), q.range);
                self.visit_bindings(spine);
            },
            ExprKind::App(head, spine) => {
                self.visit_expr(head);
                self.visit_exprs(spine);
            },
            ExprKind::Ann(v, t) => {
                self.visit_expr(v);
                self.visit_expr(t);
            },
            ExprKind::Binary(_, l, r) => {
                self.visit_expr(l);
                self.visit_expr(r);
            },
            ExprKind::Subst(id, _, inner) => {
                self.visit_ident(id);
                self.visit_expr(inner);
            },
            ExprKind::Lit(_) | ExprKind::Hole => {},
            ExprKind::All(..) | ExprKind::Lambda(..) | ExprKind::Let(..) | ExprKind::Sigma(..) => self.visit_binder_expr(e),
            _ => self.visit_sugar_expr(e),
        }
    }

    pub fn visit_rule(&mut self, r: &Rule)
        ensures
            final(self).st() == s_rule(old(self).env(), old(self).st(), *r),
            final(self).env() == old(self).env(),
    {
        let vars = self.save_ctx();
        self.visit_pats(&r.pats);
        self.visit_expr(&r.body);
        self.restore_ctx(vars);
    }

    pub fn visit_entry(&mut self, e: &Entry)
        ensures
            final(self).st() == s_entry(old(self).env(), old(self).st(), *e),
            final(self).env() == old(self).env(),
    {
        let vars = self.save_ctx();
        self.visit_arguments(&e.args);
        self.visit_expr(&e.typ);
        self.restore_ctx(vars);
        self.visit_rules(&e.rules);
    }

    fn visit_constructors(&mut self, inside: &Vec<(Range, String)>, cs: &Vec<Constructor>)
        ensures
            final(self).st() == s_constructors(old(self).env(), old(self).st(), ctx_model(inside@), cs@),
            final(self).env() == old(self).env(),
    {
        let ghost env = self.env();
        let ghost s0 = self.st();
        let ghost ins = ctx_model(inside@);
        let mut i: usize = 0;
        assert(cs@.subrange(0, 0) =~= Seq::<Constructor>::empty());
        while i < cs.len()
            invariant
                i <= cs@.len(),
                self.env() == env,
                ins == ctx_model(inside@),
                self.st() == s_constructors(env, s0, ins, cs@.subrange(0, i as int)),
            decreases cs@.len() - i,
        {
            proof {
                let pre = cs@.subrange(0, i as int + 1);
                assert(pre.drop_last() =~= cs@.subrange(0, i as int));
            }
            let copy = copy_ctx(inside);
            self.restore_ctx(copy);
            self.visit_arguments(&cs[i].args);
            match &cs[i].typ {
                Some(t) => self.visit_expr(t),
                None => {},
            }
            i = i + 1;
        }
        assert(cs@.subrange(0, cs@.len() as int) =~= cs@);
    }

    fn visit_sum_type(&mut self, sum: &SumType)
        ensures
            final(self).st() == s_top_level(old(self).env(), old(self).st(), TopLevel::SumType(*sum)),
            final(self).env() == old(self).env(),
    {
        proof { reveal_strlit("."); }
        let ghost s_start = self.st();
        let ghost names = constructor_names(*sum);
        let outer = self.save_ctx();
        let mut failed = false;
        let mut i: usize = 0;
        while i < sum.constructors.len()
            invariant
                i <= sum.constructors@.len(),
                self.env() == old(self).env(),
                names == constructor_names(*sum),
                self.st() == with_ctx(s_start, s_start.ctx + Seq::new(i as nat, |k: int| (sum.name.range, names[k]))),
                failed <==> exists|a: int, b: int| 0 <= a < b < i
                    && (#[trigger] sum.constructors@[a]).name.name@ == (#[trigger] sum.constructors@[b]).name.name@,
            decreases sum.constructors@.len() - i,
        {
            let mut j: usize = 0;
            let mut seen = false;
            while j < i
                invariant
                    j <= i,
                    i < sum.constructors@.len(),
                    seen <==> exists|a: int| 0 <= a < j && (#[trigger] sum.constructors@[a]).name.name@ == sum.constructors@[i as int].name.name@,
                decreases i - j,
            {
                if sum.constructors[j].name.name == sum.constructors[i].name.name {
                    seen = true;
                }
                j = j + 1;
            }
            if seen {
                failed = true;
            }
            let full = sum.name.name.clone().concat(".").concat(sum.constructors[i].name.name.as_str());
            assert(full@ == names[i as int]);
            self.push_ctx(sum.name.range, full);
            proof {
                assert(self.st().ctx =~= s_start.ctx + Seq::new(i as nat + 1, |k: int| (sum.name.range, names[k])));
                assert(self.st() =~= with_ctx(s_start, s_start.ctx + Seq::new(i as nat + 1, |k: int| (sum.name.range, names[k]))));
                if seen {
                    let a = choose|a: int| 0 <= a < j && (#[trigger] sum.constructors@[a]).name.name@ == sum.constructors@[i as int].name.name@;
                    assert(sum.constructors@[a].name.name@ == sum.constructors@[i as int].name.name@);
                }
            }
            i = i + 1;
        }
        assert(Seq::new(sum.constructors@.len() as nat, |k: int| (sum.name.range, names[k])) =~= Seq::new(names.len(), |k: int| (sum.name.range, names[k])));
        if failed {
            self.restore_ctx(outer);
            assert(self.st() =~= s_start);
            return;
        }
        self.visit_arguments(&sum.parameters);
        let inside = self.save_ctx();
        self.visit_arguments(&sum.indices);
        self.visit_constructors(&inside, &sum.constructors);
        self.restore_ctx(outer);
    }

    /// The pass over one top-level item.
    pub fn visit_top_level(&mut self, t: &TopLevel)
        ensures
            final(self).st() == s_top_level(old(self).env(), old(self).st(), *t),
            final(self).env() == old(self).env(),
    {
        match t {
            TopLevel::SumType(sum) => self.visit_sum_type(sum),
            TopLevel::RecordType(rec) => {
                let vars = self.save_ctx();
                self.visit_arguments(&rec.parameters);
                self.visit_fields(&rec.fields);
                self.restore_ctx(vars);
            },
            TopLevel::Entry(e) => self.visit_entry(e),
        }
    }

    /// Records the names that a top-level item declares.
    pub fn visit_top_level_names(&mut self, t: &TopLevel)
        ensures
            final(self).env().defs == old(self).env().defs + declared_names(*t),
            final(self).env().emit == old(self).env().emit,
            final(self).st() == old(self).st(),
    {
        proof { reveal_strlit("."); }
        let ghost d0 = self.env().defs;
        match t {
            TopLevel::SumType(sum) => {
                self.top_level_defs.push(sum.name.name.clone());
                let mut i: usize = 0;
                while i < sum.constructors.len()
                    invariant
                        i <= sum.constructors@.len(),
                        self.st() == old(self).st(),
                        self.emit_errs == old(self).emit_errs,
                        self.env().defs == d0 + seq![sum.name.name@] + constructor_names(*sum).subrange(0, i as int),
                    decreases sum.constructors@.len() - i,
                {
                    let full = sum.name.name.clone().concat(".").concat(sum.constructors[i].name.name.as_str());
                    assert(full@ == constructor_names(*sum)[i as int]);
                    let ghost before = self.env().defs;
                    self.top_level_defs.push(full);
                    assert(self.env().defs =~= before.push(full@));
                    assert(self.env().defs =~= d0 + seq![sum.name.name@] + constructor_names(*sum).subrange(0, i as int + 1));
                    i = i + 1;
                }
                assert(constructor_names(*sum).subrange(0, sum.constructors@.len() as int) =~= constructor_names(*sum));
                assert(self.env().defs =~= d0 + declared_names(*t));
            },
            TopLevel::RecordType(rec) => {
                self.top_level_defs.push(rec.name.name.clone());
                self.top_level_defs.push(rec.name.name.clone().concat(".").concat(rec.constructor.name.as_str()));
                assert(self.env().defs =~= d0 + declared_names(*t));
            },
            TopLevel::Entry(e) => {
                self.top_level_defs.push(e.name.name.clone());
                assert(self.env().defs =~= d0 + declared_names(*t));
            },
        }
    }

    /// The pass over a module: all top-level names first, so that items may
    /// refer to later ones, then each item in order.
    pub fn visit_module(&mut self, m: &Module)
        requires
            old(self).st() == empty_state(),
            old(self).env().defs == Seq::<Seq<char>>::empty(),
        ensures
            final(self).st() == resolve_module(*m, old(self).emit_errs),
            final(self).env() == (ResolveEnv { defs: module_names(m.entries@), emit: old(self).emit_errs }),
    {
        let mut i: usize = 0;
        while i < m.entries.len()
            invariant
                i <= m.entries@.len(),
                self.st() == empty_state(),
                self.emit_errs == old(self).emit_errs,
                self.env().defs == module_names(m.entries@.subrange(0, i as int)),
            decreases m.entries@.len() - i,
        {
            self.visit_top_level_names(&m.entries[i]);
            assert(m.entries@.subrange(0, i as int + 1).drop_last() =~= m.entries@.subrange(0, i as int));
            i = i + 1;
        }
        assert(m.entries@.subrange(0, m.entries@.len() as int) =~= m.entries@);
        let ghost env = self.env();
        let mut k: usize = 0;
        assert(m.entries@.subrange(0, 0) =~= Seq::<TopLevel>::empty());
        while k < m.entries.len()
            invariant
                k <= m.entries@.len(),
                self.env() == env,
                env.defs == module_names(m.entries@),
                env.emit == old(self).emit_errs,
                self.st() == s_top_levels(env, empty_state(), m.entries@.subrange(0, k as int)),
            decreases m.entries@.len() - k,
        {
            self.visit_top_level(&m.entries[k]);
            assert(m.entries@.subrange(0, k as int + 1).drop_last() =~= m.entries@.subrange(0, k as int));
            k = k + 1;
        }
        assert(env == (ResolveEnv { defs: module_names(m.entries@), emit: old(self).emit_errs }));
    }
}

fn copy_ctx(v: &Vec<(Range, String)>) -> (r: Vec<(Range, String)>)
    ensures
        ctx_model(r@) == ctx_model(v@),
{
    let mut out: Vec<(Range, String)> = Vec::new();
    let mut i: usize = 0;
    while i < v.len()
        invariant
            i <= v@.len(),
            out@.len() == i,
            forall|j: int| 0 <= j < i ==> (#[trigger] out@[j]).0 == v@[j].0 && out@[j].1@ == v@[j].1@,
        decreases v@.len() - i,
    {
        out.push((v[i].0, v[i].1.clone()));
        i = i + 1;
    }
    assert(ctx_model(out@) =~= ctx_model(v@));
    out
}

/// Occurrences grouped by name, names in order of first occurrence. With
/// `dedup`, an occurrence at a range already recorded for its name is
/// recorded once.
pub open spec fn group(occ: Seq<(Seq<char>, Range)>, dedup: bool) -> Seq<(Seq<char>, Seq<Range>)>
    decreases occ.len(),
{
    if occ.len() == 0 {
        Seq::empty()
    } else {
        let g = group(occ.drop_last(), dedup);
        let (n, r) = occ.last();
        match key_index(g, n) {
            Some(k) => if dedup && g[k].1.contains(r) { g } else { g.update(k, (n, g[k].1.push(r))) },
            None => g.push((n, seq![r])),
        }
    }
}

/// The position of the group of `n`.
pub open spec fn key_index(g: Seq<(Seq<char>, Seq<Range>)>, n: Seq<char>) -> Option<int>
    decreases g.len(),
{
    if g.len() == 0 {
        None
    } else if g.last().0 == n {
        Some(g.len() - 1)
    } else {
        key_index(g.drop_last(), n)
    }
}

pub open spec fn groups_model(v: Seq<(String, Vec<Range>)>) -> Seq<(Seq<char>, Seq<Range>)> {
    Seq::new(v.len(), |i: int| (v[i].0@, v[i].1@))
}

proof fn lemma_key_index_bounds(g: Seq<(Seq<char>, Seq<Range>)>, n: Seq<char>)
    ensures
        key_index(g, n) matches Some(k) ==> 0 <= k < g.len() && g[k].0 == n,
        key_index(g, n) is None ==> forall|k: int| 0 <= k < g.len() ==> g[k].0 != n,
    decreases g.len(),
{
    if g.len() > 0 {
        lemma_key_index_bounds(g.drop_last(), n);
        if key_index(g, n) is None {
            assert forall|k: int| 0 <= k < g.len() implies g[k].0 != n by {
                if k < g.len() - 1 {
                    assert(g[k] == g.drop_last()[k]);
                }
            }
        }
        if key_index(g, n) is Some && g.last().0 != n {
            let k = key_index(g, n)->0;
            assert(g[k] == g.drop_last()[k]);
        }
    }
}

fn find_group(g: &Vec<(String, Vec<Range>)>, n: &String) -> (r: Option<usize>)
    ensures
        r matches Some(k) ==> key_index(groups_model(g@), n@) == Some(k as int),
        r is None ==> key_index(groups_model(g@), n@) is None,
{
    let ghost gm = groups_model(g@);
    let mut i: usize = g.len();
    assert(gm.subrange(0, i as int) =~= gm);
    while i > 0
        invariant
            i <= g@.len(),
            gm == groups_model(g@),
            key_index(gm, n@) == key_index(gm.subrange(0, i as int), n@),
        decreases i,
    {
        let ghost pre = gm.subrange(0, i as int);
        assert(pre.drop_last() =~= gm.subrange(0, i as int - 1));
        if g[i - 1].0 == *n {
            return Some(i - 1);
        }
        i = i - 1;
    }
    None
}

fn contains_range(v: &Vec<Range>, r: Range) -> (b: bool)
    ensures
        b == v@.contains(r),
{
    let mut i: usize = 0;
    while i < v.len()
        invariant
            i <= v@.len(),
            forall|j: int| 0 <= j < i ==> v@[j] != r,
        decreases v@.len() - i,
    {
        if v[i] == r {
            return true;
        }
        i = i + 1;
    }
    false
}

/// Groups occurrences by name.
pub fn group_occurrences(occ: &Vec<Ident>, dedup: bool) -> (r: Vec<(String, Vec<Range>)>)
    ensures
        groups_model(r@) == group(Seq::new(occ@.len(), |i: int| (occ@[i].name@, occ@[i].range)), dedup),
{
    let ghost all = Seq::new(occ@.len(), |i: int| (occ@[i].name@, occ@[i].range));
    let mut out: Vec<(String, Vec<Range>)> = Vec::new();
    let mut i: usize = 0;
    assert(groups_model(out@) =~= group(all.subrange(0, 0), dedup));
    while i < occ.len()
        invariant
            i <= occ@.len(),
            all == Seq::new(occ@.len(), |i: int| (occ@[i].name@, occ@[i].range)),
            groups_model(out@) == group(all.subrange(0, i as int), dedup),
        decreases occ@.len() - i,
    {
        let ghost pre = all.subrange(0, i as int + 1);
        assert(pre.drop_last() =~= all.subrange(0, i as int));
        assert(pre.last() == (occ@[i as int].name@, occ@[i as int].range));
        let ghost g = groups_model(out@);
        let name = &occ[i].name;
        let range = occ[i].range;
        proof { lemma_key_index_bounds(g, name@); }
        match find_group(&out, name) {
            Some(k) => {
                let present = contains_range(&out[k].1, range);
                if !(dedup && present) {
                    let mut entry = out.remove(k);
                    entry.1.push(range);
                    out.insert(k, entry);
                    assert(groups_model(out@) =~= g.update(k as int, (name@, g[k as int].1.push(range))));
                }
            },
            None => {
                let v = vec![range];
                assert(v@ =~= seq![range]);
                out.push((name.clone(), v));
                assert(groups_model(out@) =~= g.push((name@, seq![range])));
            },
        }
        i = i + 1;
    }
    assert(all.subrange(0, occ@.len() as int) =~= all);
    out
}

/// The grouped maps are empty exactly when nothing was recorded: a module
/// without unresolved names gives two empty maps, and one with any gives a
/// non-empty map.
pub proof fn lemma_group_empty(occ: Seq<(Seq<char>, Range)>, dedup: bool)
    ensures
        (group(occ, dedup).len() == 0) <==> (occ.len() == 0),
    decreases occ.len(),
{
    if occ.len() > 0 {
        lemma_group_empty(occ.drop_last(), dedup);
        let g = group(occ.drop_last(), dedup);
        lemma_key_index_bounds(g, occ.last().0);
    }
}

/// Rules leave the scope as they found it.
proof fn lemma_rules_keep_scope(env: ResolveEnv, s: ResolveState, rs: Seq<Rule>)
    ensures
        s_rules(env, s, rs).ctx == s.ctx,
    decreases rs.len(),
{
    if rs.len() > 0 {
        lemma_rules_keep_scope(env, s, rs.drop_last());
    }
}

/// Every top-level item leaves the scope exactly as it was before it.
pub proof fn lemma_top_level_restores_scope(env: ResolveEnv, s: ResolveState, t: TopLevel)
    ensures
        s_top_level(env, s, t).ctx == s.ctx,
{
    if let TopLevel::Entry(e) = t {
        let s1 = s_expr(env, s_arguments(env, s, e.args@), e.typ);
        lemma_rules_keep_scope(env, with_ctx(s1, s.ctx), e.rules@);
    }
}

/// The number of occurrences of `n`.
pub open spec fn occurrences(occ: Seq<(Seq<char>, Range)>, n: Seq<char>) -> nat
    decreases occ.len(),
{
    if occ.len() == 0 {
        0
    } else {
        occurrences(occ.drop_last(), n) + if occ.last().0 == n { 1nat } else { 0nat }
    }
}

/// Without deduplication, each name's group holds one range per occurrence
/// of the name, in order: an unbound name used three times is recorded
/// three times. Names that never occur have no group.
pub proof fn lemma_group_keeps_every_occurrence(occ: Seq<(Seq<char>, Range)>, n: Seq<char>)
    ensures
        key_index(group(occ, false), n) matches Some(k) ==> group(occ, false)[k].1.len() == occurrences(occ, n),
        key_index(group(occ, false), n) is None ==> occurrences(occ, n) == 0,
    decreases occ.len(),
{
    if occ.len() > 0 {
        let g = group(occ.drop_last(), false);
        let (m, r) = occ.last();
        lemma_group_keeps_every_occurrence(occ.drop_last(), n);
        lemma_key_index_bounds(g, m);
        lemma_key_index_bounds(g, n);
        let g2 = group(occ, false);
        lemma_key_index_bounds(g2, n);
        match key_index(g, m) {
            Some(k) => {
                assert(g2 == g.update(k, (m, g[k].1.push(r))));
                lemma_key_index_update(g, k, (m, g[k].1.push(r)), n);
            },
            None => {
                assert(g2 == g.push((m, seq![r])));
                lemma_key_index_push(g, (m, seq![r]), n);
            },
        }
    }
}

proof fn lemma_key_index_update(g: Seq<(Seq<char>, Seq<Range>)>, k: int, v: (Seq<char>, Seq<Range>), n: Seq<char>)
    requires
        0 <= k < g.len(),
        g[k].0 == v.0,
    ensures
        key_index(g.update(k, v), n) == key_index(g, n),
    decreases g.len(),
{
    if g.len() > 0 {
        if k < g.len() - 1 {
            assert(g.update(k, v).drop_last() =~= g.drop_last().update(k, v));
            lemma_key_index_update(g.drop_last(), k, v, n);
        } else {
            assert(g.update(k, v).drop_last() =~= g.drop_last());
        }
    }
}

proof fn lemma_key_index_push(g: Seq<(Seq<char>, Seq<Range>)>, v: (Seq<char>, Seq<Range>), n: Seq<char>)
    ensures
        key_index(g.push(v), n) == if v.0 == n { Some(g.len() as int) } else { key_index(g, n) },
{
    assert(g.push(v).drop_last() =~= g);
}

/// What the resolver found in a module.
#[derive(Debug)]
pub struct UnboundNames {
    /// Each unresolved local name with every range where it occurs.
    pub locals: Vec<(String, Vec<Range>)>,
    /// Each unresolved qualified name with the set of ranges where it occurs.
    pub top_level: Vec<(String, Vec<Range>)>,
    /// Each repeated binding: first and second range.
    pub repeated: Vec<(Range, Range)>,
}

impl UnboundNames {
    /// Resolution succeeded: no unresolved name of either kind.
    pub fn is_clean(&self) -> (r: bool)
        ensures
            r == (self.locals@.len() == 0 && self.top_level@.len() == 0),
    {
        self.locals.len() == 0 && self.top_level.len() == 0
    }
}

/// Resolves a module: unresolved local names with all their occurrences,
/// unresolved qualified names with their occurrence sets, and, when
/// `emit_errs` is set, the repeated bindings.
pub fn get_module_unbound(module: &Module, emit_errs: bool) -> (r: UnboundNames)
    ensures
        groups_model(r.locals@) == group(resolve_module(*module, emit_errs).unbound, false),
        groups_model(r.top_level@) == group(resolve_module(*module, emit_errs).unbound_top, true),
        r.repeated@ == resolve_module(*module, emit_errs).repeated,
{
    let mut state = UnboundCollector::new(emit_errs);
    state.visit_module(module);
    let locals = group_occurrences(&state.unbound, false);
    let mut tops: Vec<Ident> = Vec::new();
    let mut i: usize = 0;
    while i < state.unbound_top_level.len()
        invariant
            i <= state.unbound_top_level@.len(),
            tops@.len() == i,
            forall|j: int| 0 <= j < i ==> (#[trigger] tops@[j]).name@ == state.unbound_top_level@[j].name@
                && tops@[j].range == state.unbound_top_level@[j].range,
        decreases state.unbound_top_level@.len() - i,
    {
        let q = &state.unbound_top_level[i];
        tops.push(Ident { name: q.name.clone(), range: q.range });
        i = i + 1;
    }
    let top_level = group_occurrences(&tops, true);
    assert(Seq::new(tops@.len(), |i: int| (tops@[i].name@, tops@[i].range)) =~= state.st().unbound_top);
    assert(Seq::new(state.unbound@.len(), |i: int| (state.unbound@[i].name@, state.unbound@[i].range)) =~= state.st().unbound);
    UnboundNames { locals, top_level, repeated: state.repeated }
}

} // verus!
