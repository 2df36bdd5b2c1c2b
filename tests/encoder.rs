use kind_checker::driver::gen_checker;
use kind_checker::encoder::{codegen_all_expr, codegen_str};
use kind_checker::expr::{Argument, Book, Entry, Expr, ExprKind, Ident, Rule as Equation};
use kind_checker::names::name_id;
use kind_checker::rules::{codegen_expr, codegen_glossary};
use kind_checker::span::{encode_span, Range, Span};
use kind_checker::tags::{eval_ctr, operator_to_constructor, EvalTag, Operator, TermTag};
use kind_checker::validate::check_book;
use kind_checker::term::{lift_spine, unlift_spine, Term, ARITY_CEILING};

fn rg() -> Range {
    Range { start: 1, end: 2, ctx: 0 }
}

fn ident(n: &str) -> Ident {
    Ident { name: n.to_string(), range: rg() }
}

fn e(data: ExprKind) -> Expr {
    Expr { data, span: Span::Locatable(rg()) }
}

fn var(n: &str) -> Expr {
    e(ExprKind::Var(ident(n)))
}

fn ctr_name(t: &Term) -> &str {
    match t {
        Term::Ctr { name, .. } => name,
        _ => panic!("not a constructor: {:?}", t),
    }
}

fn ctr_args(t: &Term) -> &Vec<Term> {
    match t {
        Term::Ctr { args, .. } => args,
        _ => panic!("not a constructor: {:?}", t),
    }
}

#[test]
fn spine_at_ceiling_is_packed_and_recovered() {
    let spine: Vec<Term> = (0..ARITY_CEILING as u64).map(|n| Term::Num { numb: n }).collect();
    let lifted = lift_spine(spine);
    assert_eq!(lifted.len(), 1);
    assert!(lifted.len() < ARITY_CEILING);
    assert_eq!(ctr_name(&lifted[0]), "Kind.Term.args14");
    assert_eq!(ctr_args(&lifted[0]).len(), 14);
    let flat = unlift_spine(lifted);
    assert_eq!(flat.len(), 14);
    for (i, t) in flat.iter().enumerate() {
        assert!(matches!(t, Term::Num { numb } if *numb == i as u64));
    }
}

#[test]
fn spine_below_ceiling_is_unchanged() {
    let spine: Vec<Term> = (0..13u64).map(|n| Term::Num { numb: n }).collect();
    assert_eq!(lift_spine(spine).len(), 13);
}

#[test]
fn call_with_ceiling_many_arguments() {
    let args: Vec<Expr> = (0..14u64).map(|n| e(ExprKind::Num(n))).collect();
    let call = e(ExprKind::Fun(ident("F"), args));
    let t = codegen_expr(true, &call);
    assert_eq!(ctr_name(&t), "Kind.Term.fun14");
    let outer = ctr_args(&t);
    assert_eq!(outer.len(), 1);
    assert_eq!(ctr_name(&outer[0]), "Kind.Term.args16");
    let flat = unlift_spine(vec![Term::Ctr { name: "Kind.Term.args16".to_string(), args: ctr_args(&outer[0]).iter().map(|x| x.duplicate()).collect() }]);
    assert_eq!(flat.len(), 16);
}

#[test]
fn tags_follow_the_quote_flag() {
    assert_eq!(eval_ctr(false, TermTag::App), "Kind.Term.app");
    assert_eq!(eval_ctr(true, TermTag::App), "Kind.Term.eval_app");
    assert_eq!(eval_ctr(true, TermTag::Binary), "Kind.Term.eval_op");
    assert_eq!(eval_ctr(true, TermTag::Typ), "Kind.Term.typ");
    assert_eq!(eval_ctr(false, TermTag::Ctr(3)), "Kind.Term.ctr3");
    assert_eq!(eval_ctr(true, TermTag::Fun(12)), "Kind.Term.fun12");
    assert_eq!(eval_ctr(false, TermTag::HoasF("Nat.add".to_string())), "F$Nat.add");
    assert_eq!(EvalTag::EvalSub.text(), "Kind.Term.eval_sub");
    assert_eq!(operator_to_constructor(Operator::Shl), "Kind.Operator.shl");
}

#[test]
fn pattern_variables_take_increasing_indices() {
    let mut count: u64 = 0;
    let pat = e(ExprKind::Ctr(ident("Pair.new"), vec![var("a"), var("b")]));
    let t = codegen_all_expr(true, &mut count, false, &pat);
    assert_eq!(count, 2);
    let args = ctr_args(&t);
    assert_eq!(args.len(), 4);
    for (k, arg) in args[2..].iter().enumerate() {
        assert_eq!(ctr_name(arg), "Kind.Term.var");
        let inner = ctr_args(arg);
        assert!(matches!(inner[2], Term::Num { numb } if numb == k as u64));
    }
    assert!(matches!(ctr_args(&args[2])[1], Term::Num { numb } if numb == name_id("a")));
}

#[test]
fn variables_outside_patterns() {
    assert!(matches!(codegen_expr(false, &var("x")), Term::Var { name } if name == "x"));
    let quoted = codegen_expr(true, &var("x"));
    assert_eq!(ctr_name(&quoted), "Kind.Term.set_origin");
    assert!(matches!(ctr_args(&quoted)[0], Term::Num { numb } if numb == encode_span(Span::Locatable(rg()))));
}

#[test]
fn direct_call_uses_the_native_tag() {
    let call = e(ExprKind::Fun(ident("Nat.add"), vec![e(ExprKind::Num(1))]));
    assert_eq!(ctr_name(&codegen_expr(false, &call)), "F$Nat.add");
    assert_eq!(ctr_name(&codegen_expr(true, &call)), "Kind.Term.fun1");
}

#[test]
fn application_is_native() {
    let app = e(ExprKind::App(Box::new(var("f")), vec![var("a"), var("b")]));
    match codegen_expr(false, &app) {
        Term::App { func, argm } => {
            assert!(matches!(*argm, Term::Var { ref name } if name == "b"));
            assert!(matches!(*func, Term::App { .. }));
        }
        other => panic!("unexpected {:?}", other),
    }
}

#[test]
fn strings_become_code_point_lists() {
    let t = codegen_str("ab");
    assert_eq!(ctr_name(&t), "String.cons");
    assert!(matches!(ctr_args(&t)[0], Term::Num { numb: 97 }));
    let rest = &ctr_args(&t)[1];
    assert!(matches!(ctr_args(rest)[0], Term::Num { numb: 98 }));
    assert_eq!(ctr_name(&ctr_args(rest)[1]), "String.nil");
}

fn identity_book() -> Book {
    let id_entry = Entry {
        name: ident("Id"),
        args: vec![Argument { name: ident("x"), tipo: e(ExprKind::U60), erased: false, span: Span::Locatable(rg()) }],
        tipo: e(ExprKind::U60),
        rules: vec![Equation { name: ident("Id"), pats: vec![var("x")], body: var("x"), span: Span::Locatable(rg()) }],
        span: Span::Locatable(rg()),
    };
    let main = Entry {
        name: ident("Main"),
        args: vec![],
        tipo: e(ExprKind::U60),
        rules: vec![Equation { name: ident("Main"), pats: vec![], body: e(ExprKind::Fun(ident("Id"), vec![e(ExprKind::Num(5))])), span: Span::Locatable(rg()) }],
        span: Span::Locatable(rg()),
    };
    Book { entries: vec![id_entry, main] }
}

#[test]
fn book_rules_have_the_expected_shape() {
    let file = codegen_glossary(&identity_book());
    let heads: Vec<String> = file.rules.iter().map(|r| ctr_name(&r.lhs).to_string()).collect();
    assert_eq!(&heads[0..5], &["NameOf", "HashOf", "TypeOf", "Kind.Term.FN1", "QT1"]);
    assert_eq!(&heads[5..7], &["Q$Id", "F$Id"]);
    assert_eq!(&heads[7..9], &["Q$Id", "F$Id"]);
    assert_eq!(heads[9], "RuleOf");
    assert_eq!(heads.last().unwrap(), "Functions");
    assert!(matches!(file.rules[1].rhs, Term::Num { numb } if numb == fxhash::hash64("Id")));
}

#[test]
fn compiling_twice_gives_identical_rules() {
    let a = format!("{:?}", codegen_glossary(&identity_book()));
    let b = format!("{:?}", codegen_glossary(&identity_book()));
    assert_eq!(a, b);
    let p = gen_checker("bootstrap".to_string(), &identity_book()).unwrap();
    for n in ["x", "Id", "Main"] {
        let known = p.names.decode_identifier(name_id(n)).is_some();
        assert_eq!(known, n == "x");
    }
    assert_eq!(p.bootstrap, "bootstrap");
    assert_eq!(format!("{:?}", p.rules), a);
}

#[test]
fn logging_primitive_shows_its_argument() {
    let log = Entry {
        name: ident("HVM.log"),
        args: vec![],
        tipo: e(ExprKind::U60),
        rules: vec![Equation { name: ident("HVM.log"), pats: vec![], body: e(ExprKind::Num(0)), span: Span::Locatable(rg()) }],
        span: Span::Locatable(rg()),
    };
    let file = codegen_glossary(&Book { entries: vec![log] });
    assert_eq!(ctr_name(&file.rules[6].lhs), "F$HVM.log");
    assert_eq!(ctr_args(&file.rules[6].lhs).len(), 5);
    assert_eq!(ctr_name(&file.rules[6].rhs), "HVM.put");
}

#[test]
fn error_marker_or_oversized_span_is_refused() {
    assert!(check_book(&identity_book()));
    let mut with_error = identity_book();
    with_error.entries[0].rules[0].body = e(ExprKind::Error);
    assert!(!check_book(&with_error));
    let mut wide = identity_book();
    wide.entries[1].tipo = Expr { data: ExprKind::U60, span: Span::Locatable(Range { start: 0, end: 0x100_0000, ctx: 0 }) };
    assert!(!check_book(&wide));
}

#[test]
fn colliding_names_stop_generation() {
    let mut book = identity_book();
    book.entries[1].rules[0].body = e(ExprKind::Lambda(ident("Name.n109"), Box::new(e(ExprKind::Lambda(ident("Name.n184"), Box::new(e(ExprKind::Num(0))))))));
    let err = gen_checker(String::new(), &book).err().unwrap();
    assert_eq!(err.existing, "Name.n109");
    assert_eq!(err.incoming, "Name.n184");
}

#[test]
fn quoted_application_is_a_tagged_node() {
    let app = e(ExprKind::App(Box::new(var("f")), vec![var("a"), var("b")]));
    let t = codegen_expr(true, &app);
    assert_eq!(ctr_name(&t), "Kind.Term.eval_app");
    let outer = ctr_args(&t);
    assert_eq!(outer.len(), 3);
    assert!(matches!(outer[0], Term::Num { numb } if numb == encode_span(Span::Locatable(rg()))));
    assert_eq!(ctr_name(&outer[1]), "Kind.Term.eval_app");
    assert_eq!(ctr_name(&outer[2]), "Kind.Term.set_origin");
}

fn wide_book(n: usize) -> Book {
    let names: Vec<String> = (0..n).map(|i| format!("v{}", i)).collect();
    let args = names
        .iter()
        .map(|v| Argument { name: ident(v), tipo: e(ExprKind::U60), erased: false, span: Span::Locatable(rg()) })
        .collect();
    let pats = names.iter().map(|v| var(v)).collect();
    let entry = Entry {
        name: ident("W"),
        args,
        tipo: e(ExprKind::U60),
        rules: vec![Equation { name: ident("W"), pats, body: e(ExprKind::Num(0)), span: Span::Locatable(rg()) }],
        span: Span::Locatable(rg()),
    };
    Book { entries: vec![entry] }
}

#[test]
fn rule_left_sides_are_packed_like_calls() {
    let file = codegen_glossary(&wide_book(13));
    for k in [3, 4, 5, 6, 7, 8] {
        let lhs = &file.rules[k].lhs;
        assert!(ctr_args(lhs).len() < ARITY_CEILING, "rule {} has direct arity {}", k, ctr_args(lhs).len());
    }
    assert_eq!(ctr_name(&ctr_args(&file.rules[5].lhs)[0]), "Kind.Term.args14");
    assert_eq!(ctr_name(&file.rules[4].rhs), "Q$W");
    assert_eq!(ctr_name(&ctr_args(&file.rules[4].rhs)[0]), "Kind.Term.args14");
}

#[test]
fn fallback_call_keeps_its_arity_tag() {
    let file = codegen_glossary(&wide_book(14));
    assert_eq!(ctr_name(&file.rules[7].rhs), "Kind.Term.fun14");
    assert_eq!(ctr_name(&file.rules[8].rhs), "Kind.Term.fun14");
    let small = codegen_glossary(&wide_book(2));
    assert_eq!(ctr_name(&small.rules[7].rhs), "Kind.Term.fun2");
}
