use kind_checker::driver::{check_main_entry, type_check_outcome, DriverError};
use kind_checker::expr::{Book, Entry, Expr, ExprKind, Ident};
use kind_checker::report::{parse_report, DecodeError, Diagnostic};
use kind_checker::span::{encode_span, Range, Span};
use kind_checker::term::Term;

fn ctr(name: &str, args: Vec<Term>) -> Term {
    Term::Ctr { name: name.to_string(), args }
}

fn num(n: u64) -> Term {
    Term::Num { numb: n }
}

fn span(start: u32, end: u32) -> Span {
    Span::Locatable(Range { start, end, ctx: 0 })
}

fn list(items: Vec<Term>) -> Term {
    let mut acc = ctr("List.nil", vec![]);
    for item in items.into_iter().rev() {
        acc = ctr("List.cons", vec![item, acc]);
    }
    acc
}

#[test]
fn empty_report_means_success() {
    let (ok, errs) = type_check_outcome(&list(vec![])).unwrap();
    assert!(ok);
    assert!(errs.is_empty());
}

#[test]
fn records_decode_in_order() {
    let mismatch = ctr(
        "Kind.Error.Quoted.type_mismatch",
        vec![num(encode_span(span(1, 2))), num(encode_span(span(3, 4))), ctr("Kind.Term.u60", vec![]), ctr("Kind.Term.typ", vec![])],
    );
    let unbound = ctr("Kind.Error.Quoted.unbound_variable", vec![num(encode_span(span(5, 6))), num(99)]);
    let (ok, errs) = type_check_outcome(&list(vec![mismatch, unbound])).unwrap();
    assert!(!ok);
    assert_eq!(errs.len(), 2);
    match &errs[0] {
        Diagnostic::TypeMismatch { expected_span, found_span, .. } => {
            assert_eq!(*expected_span, span(1, 2));
            assert_eq!(*found_span, span(3, 4));
        }
        other => panic!("unexpected {:?}", other),
    }
    match &errs[1] {
        Diagnostic::UnboundReference { span: s, name_id } => {
            assert_eq!(*s, span(5, 6));
            assert_eq!(*name_id, 99);
        }
        other => panic!("unexpected {:?}", other),
    }
}

#[test]
fn single_span_records() {
    let names = [
        "Kind.Error.Quoted.cant_infer_hole",
        "Kind.Error.Quoted.cant_infer_lambda",
        "Kind.Error.Quoted.invalid_call",
        "Kind.Error.Quoted.too_many_arguments",
    ];
    for n in names {
        let errs = parse_report(&list(vec![ctr(n, vec![num(encode_span(span(0, 1)))])])).unwrap();
        assert_eq!(errs.len(), 1);
    }
}

#[test]
fn unknown_record_is_fatal() {
    let r = parse_report(&list(vec![ctr("Kind.Error.Quoted.nonsense", vec![])]));
    assert!(matches!(r, Err(DecodeError::UnknownRecord)));
}

#[test]
fn malformed_span_is_fatal() {
    let r = parse_report(&list(vec![ctr("Kind.Error.Quoted.invalid_call", vec![num(u64::MAX)])]));
    assert!(matches!(r, Err(DecodeError::BadSpan)));
}

#[test]
fn non_list_is_fatal() {
    assert!(matches!(parse_report(&num(3)), Err(DecodeError::NotAList)));
}

fn entry(name: &str) -> Entry {
    Entry {
        name: Ident { name: name.to_string(), range: Range { start: 0, end: 0, ctx: 0 } },
        args: vec![],
        tipo: Expr { data: ExprKind::U60, span: Span::Generated },
        rules: vec![],
        span: Span::Generated,
    }
}

#[test]
fn main_entry_is_found() {
    assert_eq!(check_main_entry(&Book { entries: vec![entry("Foo"), entry("Main")] }), Ok(()));
    assert_eq!(check_main_entry(&Book { entries: vec![entry("Foo")] }), Err(DriverError::ThereIsntAMain));
}
