//! The report decoder: reads the engine's normal form of a "check all" run
//! as a list of diagnostic records.
use vstd::prelude::*;
use vstd::string::StringExecFns;
use crate::span::{decode_span, span_of_code, Span};
use crate::term::{models, Term, TermV};

verus! {

broadcast use vstd::std_specs::vec::axiom_vec_index_decreases;

/// An error that the checking algorithm found.
#[derive(Debug)]
pub enum Diagnostic {
    /// The term at `found_span` has type `found` where `expected` was due.
    TypeMismatch { expected_span: Span, found_span: Span, expected: Term, found: Term },
    /// A reference to a name that the checker does not know.
    UnboundReference { span: Span, name_id: u64 },
    CantInferHole { span: Span },
    CantInferLambda { span: Span },
    InvalidCall { span: Span },
    TooManyArguments { span: Span },
    /// A hole that the user asked to inspect, with its expected type.
    Inspection { span: Span, expected: Term },
}

/// Mathematical form of a [`Diagnostic`].
pub enum DiagnosticV {
    TypeMismatch(Span, Span, TermV, TermV),
    UnboundReference(Span, u64),
    CantInferHole(Span),
    CantInferLambda(Span),
    InvalidCall(Span),
    TooManyArguments(Span),
    Inspection(Span, TermV),
}

impl Diagnostic {
    pub open spec fn model(&self) -> DiagnosticV {
        match self {
            Diagnostic::TypeMismatch { expected_span, found_span, expected, found } =>
                DiagnosticV::TypeMismatch(*expected_span, *found_span, expected.model(), found.model()),
            Diagnostic::UnboundReference { span, name_id } => DiagnosticV::UnboundReference(*span, *name_id),
            Diagnostic::CantInferHole { span } => DiagnosticV::CantInferHole(*span),
            Diagnostic::CantInferLambda { span } => DiagnosticV::CantInferLambda(*span),
            Diagnostic::InvalidCall { span } => DiagnosticV::InvalidCall(*span),
            Diagnostic::TooManyArguments { span } => DiagnosticV::TooManyArguments(*span),
            Diagnostic::Inspection { span, expected } => DiagnosticV::Inspection(*span, expected.model()),
        }
    }
}

pub open spec fn diagnostic_models(s: Seq<Diagnostic>) -> Seq<DiagnosticV> {
    Seq::new(s.len(), |i: int| s[i].model())
}

/// The report does not have the shape that the checker writes.
#[derive(Debug, Clone, Copy, PartialEq, Eq, Structural)]
pub enum DecodeError {
    /// Neither an empty nor a non-empty list node.
    NotAList,
    /// A record with an unknown name or the wrong fields.
    UnknownRecord,
    /// A number that stands for no span.
    BadSpan,
}

/// The span that a term stands for.
pub open spec fn span_term(t: TermV) -> Option<Span> {
    match t {
        TermV::Num(n) => span_of_code(n),
        _ => None,
    }
}

/// The diagnostic that a record stands for.
pub open spec fn record(t: TermV) -> Result<DiagnosticV, DecodeError> {
    match t {
        TermV::Ctr(name, args) => {
            if name == "Kind.Error.Quoted.type_mismatch"@ && args.len() == 4 {
                match (span_term(args[0]), span_term(args[1])) {
                    (Some(a), Some(b)) => Ok(DiagnosticV::TypeMismatch(a, b, args[2], args[3])),
                    _ => Err(DecodeError::BadSpan),
                }
            } else if name == "Kind.Error.Quoted.unbound_variable"@ && args.len() == 2 && args[1] is Num {
                match span_term(args[0]) {
                    Some(a) => Ok(DiagnosticV::UnboundReference(a, args[1]->Num_0)),
                    None => Err(DecodeError::BadSpan),
                }
            } else if name == "Kind.Error.Quoted.inspection"@ && args.len() == 2 {
                match span_term(args[0]) {
                    Some(a) => Ok(DiagnosticV::Inspection(a, args[1])),
                    None => Err(DecodeError::BadSpan),
                }
            } else if args.len() == 1 && (name == "Kind.Error.Quoted.cant_infer_hole"@
                || name == "Kind.Error.Quoted.cant_infer_lambda"@
                || name == "Kind.Error.Quoted.invalid_call"@
                || name == "Kind.Error.Quoted.too_many_arguments"@) {
                match span_term(args[0]) {
                    Some(a) => Ok(
                        if name == "Kind.Error.Quoted.cant_infer_hole"@ {
                            DiagnosticV::CantInferHole(a)
                        } else if name == "Kind.Error.Quoted.cant_infer_lambda"@ {
                            DiagnosticV::CantInferLambda(a)
                        } else if name == "Kind.Error.Quoted.invalid_call"@ {
                            DiagnosticV::InvalidCall(a)
                        } else {
                            DiagnosticV::TooManyArguments(a)
                        },
                    ),
                    None => Err(DecodeError::BadSpan),
                }
            } else {
                Err(DecodeError::UnknownRecord)
            }
        },
        _ => Err(DecodeError::UnknownRecord),
    }
}

/// The diagnostics of a report, in list order; the first error met, else.
pub open spec fn report(t: TermV) -> Result<Seq<DiagnosticV>, DecodeError>
    decreases t,
{
    match t {
        TermV::Ctr(name, args) => {
            if name == "List.nil"@ && args.len() == 0 {
                Ok(Seq::empty())
            } else if name == "List.cons"@ && args.len() == 2 {
                match record(args[0]) {
                    Ok(d) => match report(args[1]) {
                        Ok(rest) => Ok(seq![d] + rest),
                        Err(e) => Err(e),
                    },
                    Err(e) => Err(e),
                }
            } else {
                Err(DecodeError::NotAList)
            }
        },
        _ => Err(DecodeError::NotAList),
    }
}

fn name_is(name: &String, lit: &str) -> (r: bool)
    ensures
        r == (name@ == lit@),
{
    *name == String::from_str(lit)
}

fn decode_span_term(t: &Term) -> (r: Result<Span, DecodeError>)
    ensures
        r matches Ok(s) ==> span_term(t.model()) == Some(s),
        r is Err ==> span_term(t.model()) is None && r == Err::<Span, DecodeError>(DecodeError::BadSpan),
{
    match t {
        Term::Num { numb } => match decode_span(*numb) {
            Some(s) => Ok(s),
            None => Err(DecodeError::BadSpan),
        },
        _ => Err(DecodeError::BadSpan),
    }
}

/// Decodes one diagnostic record.
pub fn parse_record(t: &Term) -> (r: Result<Diagnostic, DecodeError>)
    ensures
        r matches Ok(d) ==> record(t.model()) == Ok::<DiagnosticV, DecodeError>(d.model()),
        r matches Err(e) ==> record(t.model()) == Err::<DiagnosticV, DecodeError>(e),
{
    proof {
        reveal_strlit("Kind.Error.Quoted.type_mismatch"); reveal_strlit("Kind.Error.Quoted.unbound_variable");
        reveal_strlit("Kind.Error.Quoted.inspection"); reveal_strlit("Kind.Error.Quoted.cant_infer_hole");
        reveal_strlit("Kind.Error.Quoted.cant_infer_lambda"); reveal_strlit("Kind.Error.Quoted.invalid_call");
        reveal_strlit("Kind.Error.Quoted.too_many_arguments");
    }
    match t {
        Term::Ctr { name, args } => {
            proof { crate::term::lemma_ctr_model(*name, *args); }
            let ghost am = models(args@);
            if name_is(name, "Kind.Error.Quoted.type_mismatch") && args.len() == 4 {
                let a = decode_span_term(&args[0]);
                let b = decode_span_term(&args[1]);
                match (a, b) {
                    (Ok(a), Ok(b)) => Ok(Diagnostic::TypeMismatch {
                        expected_span: a,
                        found_span: b,
                        expected: args[2].duplicate(),
                        found: args[3].duplicate(),
                    }),
                    _ => Err(DecodeError::BadSpan),
                }
            } else if name_is(name, "Kind.Error.Quoted.unbound_variable") && args.len() == 2 && matches!(args[1], Term::Num { .. }) {
                let id = match &args[1] {
                    Term::Num { numb } => *numb,
                    _ => 0,
                };
                match decode_span_term(&args[0]) {
                    Ok(a) => Ok(Diagnostic::UnboundReference { span: a, name_id: id }),
                    Err(e) => Err(e),
                }
            } else if name_is(name, "Kind.Error.Quoted.inspection") && args.len() == 2 {
                match decode_span_term(&args[0]) {
                    Ok(a) => Ok(Diagnostic::Inspection { span: a, expected: args[1].duplicate() }),
                    Err(e) => Err(e),
                }
            } else if args.len() == 1 {
                let hole = name_is(name, "Kind.Error.Quoted.cant_infer_hole");
                let lambda = name_is(name, "Kind.Error.Quoted.cant_infer_lambda");
                let call = name_is(name, "Kind.Error.Quoted.invalid_call");
                let many = name_is(name, "Kind.Error.Quoted.too_many_arguments");
                if hole || lambda || call || many {
                    match decode_span_term(&args[0]) {
                        Ok(a) => Ok(
                            if hole {
                                Diagnostic::CantInferHole { span: a }
                            } else if lambda {
                                Diagnostic::CantInferLambda { span: a }
                            } else if call {
                                Diagnostic::InvalidCall { span: a }
                            } else {
                                Diagnostic::TooManyArguments { span: a }
                            },
                        ),
                        Err(e) => Err(e),
                    }
                } else {
                    Err(DecodeError::UnknownRecord)
                }
            } else {
                Err(DecodeError::UnknownRecord)
            }
        },
        _ => Err(DecodeError::UnknownRecord),
    }
}

/// Decodes a report into its diagnostics, in encounter order. An empty list
/// means the check succeeded.
pub fn parse_report(t: &Term) -> (r: Result<Vec<Diagnostic>, DecodeError>)
    ensures
        r matches Ok(ds) ==> report(t.model()) == Ok::<Seq<DiagnosticV>, DecodeError>(diagnostic_models(ds@)),
        r matches Err(e) ==> report(t.model()) == Err::<Seq<DiagnosticV>, DecodeError>(e),
    decreases t,
{
    proof { reveal_strlit("List.nil"); reveal_strlit("List.cons"); }
    match t {
        Term::Ctr { name, args } => {
            proof { crate::term::lemma_ctr_model(*name, *args); }
            if name_is(name, "List.nil") && args.len() == 0 {
                let r: Vec<Diagnostic> = Vec::new();
                assert(diagnostic_models(r@) =~= Seq::empty());
                Ok(r)
            } else if name_is(name, "List.cons") && args.len() == 2 {
                match parse_record(&args[0]) {
                    Ok(d) => {
                        assert(decreases_to!(t => args[1]));
                        match parse_report(&args[1]) {
                            Ok(rest) => {
                                let ghost rm = diagnostic_models(rest@);
                                let mut out = vec![d];
                                let mut rest = rest;
                                out.append(&mut rest);
                                assert(diagnostic_models(out@) =~= seq![d.model()] + rm);
                                Ok(out)
                            },
                            Err(e) => Err(e),
                        }
                    },
                    Err(e) => Err(e),
                }
            } else {
                Err(DecodeError::NotAList)
            }
        },
        _ => Err(DecodeError::NotAList),
    }
}

} // verus!
