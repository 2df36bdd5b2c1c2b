use kind_checker::driver::{plan_type_check, CheckStep};
use kind_checker::expr::Ident;
use kind_checker::resolver::get_module_unbound;
use kind_checker::span::Range;
use kind_checker::surface::{
    Argument, Constructor, Entry, Expr, ExprKind, Module, Pat, PatKind, QualifiedIdent, Rule,
    SumType, TopLevel,
};

fn r(start: u32) -> Range {
    Range { start, end: start + 1, ctx: 0 }
}

fn id(n: &str, at: u32) -> Ident {
    Ident { name: n.to_string(), range: r(at) }
}

fn q(n: &str, at: u32) -> QualifiedIdent {
    QualifiedIdent { name: n.to_string(), range: r(at) }
}

fn e(data: ExprKind, at: u32) -> Expr {
    Expr { data, range: r(at) }
}

fn var(n: &str, at: u32) -> Expr {
    e(ExprKind::Var(id(n, at)), at)
}

fn typ() -> Expr {
    e(ExprKind::Hole, 0)
}

fn entry(name: &str, args: Vec<Argument>, rules: Vec<Rule>) -> TopLevel {
    TopLevel::Entry(Entry { name: q(name, 0), args, typ: typ(), rules })
}

fn pvar(n: &str, at: u32) -> Pat {
    Pat { data: PatKind::Var(id(n, at)), range: r(at) }
}

#[test]
fn closed_module_has_no_unbound_names() {
    let body = e(ExprKind::App(Box::new(var("x", 10)), vec![e(ExprKind::Constr(q("Id", 11), vec![]), 11)]), 9);
    let m = Module {
        entries: vec![entry("Id", vec![], vec![Rule { name: q("Id", 1), pats: vec![pvar("x", 2)], body }])],
    };
    let u = get_module_unbound(&m, true);
    assert!(u.locals.is_empty());
    assert!(u.top_level.is_empty());
    assert!(u.repeated.is_empty());
    assert_eq!(plan_type_check(&u), CheckStep::RunEngine);
}

#[test]
fn every_occurrence_of_an_unbound_local_is_kept() {
    let body = e(
        ExprKind::App(Box::new(var("y", 10)), vec![var("y", 20), var("y", 30)]),
        9,
    );
    let m = Module { entries: vec![entry("F", vec![], vec![Rule { name: q("F", 1), pats: vec![], body }])] };
    let u = get_module_unbound(&m, true);
    assert_eq!(u.locals.len(), 1);
    assert_eq!(u.locals[0].0, "y");
    assert_eq!(u.locals[0].1, vec![r(10), r(20), r(30)]);
}

#[test]
fn constructors_bind_fields_independently() {
    let field = |at: u32| Argument { name: id("x", at), typ: None };
    let sum = SumType {
        name: q("T", 0),
        parameters: vec![],
        indices: vec![],
        constructors: vec![
            Constructor { name: id("a", 1), args: vec![field(2)], typ: None },
            Constructor { name: id("b", 3), args: vec![field(4)], typ: None },
        ],
    };
    let u = get_module_unbound(&Module { entries: vec![TopLevel::SumType(sum)] }, true);
    assert!(u.repeated.is_empty());
}

#[test]
fn pattern_binding_a_name_twice_is_reported_once() {
    let pat = Pat { data: PatKind::App(q("Pair.new", 2), vec![pvar("x", 3), pvar("x", 4)]), range: r(2) };
    let sum = SumType {
        name: q("Pair", 0),
        parameters: vec![],
        indices: vec![],
        constructors: vec![Constructor { name: id("new", 1), args: vec![], typ: None }],
    };
    let m = Module {
        entries: vec![
            TopLevel::SumType(sum),
            entry("F", vec![], vec![Rule { name: q("F", 1), pats: vec![pat], body: var("x", 5) }]),
        ],
    };
    let u = get_module_unbound(&m, true);
    assert_eq!(u.repeated, vec![(r(3), r(4))]);
    assert!(u.top_level.is_empty());
    let quiet = get_module_unbound(&m, false);
    assert!(quiet.repeated.is_empty());
}

#[test]
fn undefined_qualified_name_stops_before_the_engine() {
    let body = e(ExprKind::Constr(q("Foo.bar", 7), vec![]), 7);
    let m = Module { entries: vec![entry("Main", vec![], vec![Rule { name: q("Main", 1), pats: vec![], body }])] };
    let u = get_module_unbound(&m, true);
    assert_eq!(u.top_level.len(), 1);
    assert_eq!(u.top_level[0].0, "Foo.bar");
    assert_eq!(u.top_level[0].1, vec![r(7)]);
    assert_eq!(plan_type_check(&u), CheckStep::Fail);
}

#[test]
fn list_literal_needs_its_constructors() {
    let body = e(ExprKind::List(vec![e(ExprKind::Lit(1), 4)]), 3);
    let m = Module { entries: vec![entry("F", vec![], vec![Rule { name: q("F", 1), pats: vec![], body }])] };
    let u = get_module_unbound(&m, true);
    let names: Vec<&str> = u.top_level.iter().map(|(n, _)| n.as_str()).collect();
    assert_eq!(names, vec!["List.nil", "List.cons"]);
}

#[test]
fn forward_references_resolve() {
    let body = e(ExprKind::Constr(q("Later", 5), vec![]), 5);
    let m = Module {
        entries: vec![
            entry("Early", vec![], vec![Rule { name: q("Early", 1), pats: vec![], body }]),
            entry("Later", vec![], vec![]),
        ],
    };
    assert!(get_module_unbound(&m, true).top_level.is_empty());
}

#[test]
fn lambda_scope_ends_with_its_body() {
    let lam = e(ExprKind::Lambda(id("z", 2), None, Box::new(var("z", 3)), false), 1);
    let body = e(ExprKind::App(Box::new(lam), vec![var("z", 4)]), 0);
    let m = Module { entries: vec![entry("F", vec![], vec![Rule { name: q("F", 1), pats: vec![], body }])] };
    let u = get_module_unbound(&m, true);
    assert_eq!(u.locals.len(), 1);
    assert_eq!(u.locals[0].1, vec![r(4)]);
}

#[test]
fn sum_type_constructor_names_leave_the_scope() {
    let sum = SumType {
        name: q("T", 0),
        parameters: vec![],
        indices: vec![],
        constructors: vec![Constructor { name: id("a", 1), args: vec![], typ: None }],
    };
    let body = var("T.a", 6);
    let m = Module {
        entries: vec![
            TopLevel::SumType(sum),
            entry("F", vec![], vec![Rule { name: q("F", 1), pats: vec![], body }]),
        ],
    };
    let u = get_module_unbound(&m, true);
    assert_eq!(u.locals.len(), 1);
    assert_eq!(u.locals[0].0, "T.a");
}

#[test]
fn repeated_constructor_names_leave_no_scope_behind() {
    let sum = SumType {
        name: q("T", 0),
        parameters: vec![],
        indices: vec![],
        constructors: vec![
            Constructor { name: id("a", 1), args: vec![], typ: None },
            Constructor { name: id("a", 2), args: vec![], typ: None },
        ],
    };
    let m = Module {
        entries: vec![
            TopLevel::SumType(sum),
            entry("F", vec![], vec![Rule { name: q("F", 1), pats: vec![], body: var("T.a", 6) }]),
        ],
    };
    assert_eq!(get_module_unbound(&m, true).locals.len(), 1);
}
