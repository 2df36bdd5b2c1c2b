//! Assembly of the checker program and the decisions around one run of the
//! engine: whether to run it at all, and what its report means.
use vstd::prelude::*;
use vstd::string::StringExecFns;
use crate::expr::Book;
use crate::report::{diagnostic_models, parse_report, report, DecodeError, Diagnostic, DiagnosticV};
use crate::names::{Collision, NameTable};
use crate::resolver::UnboundNames;
use crate::validate::{book_names, collect_book_names, collision_free, genuine, intern_all};
use crate::rules::{book_ok, book_rules, codegen_glossary, RuleFile};
use crate::term::{rule_models, Term};

verus! {

/// The engine symbol that checks every definition.
pub const CHECK_ALL: &'static str = "Kind.API.check_all";

/// The engine symbol that evaluates the designated main definition.
pub const EVAL_MAIN: &'static str = "Kind.API.eval_main";

/// A program for the engine: the bootstrap checker, then the generated
/// rules, with the table of the names whose identifiers the rules carry.
pub struct CheckerProgram {
    pub bootstrap: String,
    pub rules: RuleFile,
    pub names: NameTable,
}

/// Puts the generated rules of a book after the bootstrap checker. The
/// names whose identifiers the rules carry are recorded first: generation
/// succeeds exactly when no two distinct names of the book share an
/// identifier, and otherwise reports two such names.
pub fn gen_checker(bootstrap: String, book: &Book) -> (r: Result<CheckerProgram, Collision>)
    requires
        book_ok(*book),
    ensures
        r is Ok <==> collision_free(book_names(*book)),
        r matches Ok(p) ==> p.bootstrap@ == bootstrap@
            && rule_models(p.rules.rules@) == book_rules(*book)
            && p.names.wf()
            && forall|i: int| 0 <= i < book_names(*book).len() ==> p.names.names().contains(#[trigger] book_names(*book)[i]),
        r matches Err(c) ==> genuine(c) && book_names(*book).contains(c.existing@)
            && book_names(*book).contains(c.incoming@),
{
    let all = collect_book_names(book);
    match intern_all(&all) {
        Ok(names) => Ok(CheckerProgram { bootstrap, rules: codegen_glossary(book), names }),
        Err(c) => Err(c),
    }
}

/// What the driver does next with a module.
#[derive(Debug, Clone, Copy, PartialEq, Eq, Structural)]
pub enum CheckStep {
    /// Names are unresolved: the check fails before the engine runs.
    Fail,
    /// Resolution succeeded: compile and run the engine.
    RunEngine,
}

/// The engine runs only on a module whose names all resolve.
pub fn plan_type_check(unbound: &UnboundNames) -> (r: CheckStep)
    ensures
        r == (if unbound.locals@.len() == 0 && unbound.top_level@.len() == 0 {
            CheckStep::RunEngine
        } else {
            CheckStep::Fail
        }),
{
    if unbound.is_clean() {
        CheckStep::RunEngine
    } else {
        CheckStep::Fail
    }
}

/// The outcome of a check run: whether it succeeded, and its diagnostics in
/// encounter order. Checking failed exactly when there is a diagnostic.
pub fn type_check_outcome(normal_form: &Term) -> (r: Result<(bool, Vec<Diagnostic>), DecodeError>)
    ensures
        r matches Ok((ok, ds)) ==> report(normal_form.model()) == Ok::<Seq<DiagnosticV>, DecodeError>(diagnostic_models(ds@))
            && ok == (ds@.len() == 0),
        r matches Err(e) ==> report(normal_form.model()) == Err::<Seq<DiagnosticV>, DecodeError>(e),
{
    match parse_report(normal_form) {
        Ok(errs) => {
            let succeeded = errs.len() == 0;
            Ok((succeeded, errs))
        },
        Err(e) => Err(e),
    }
}

/// The driver found no definition to run.
#[derive(Debug, Clone, Copy, PartialEq, Eq, Structural)]
pub enum DriverError {
    ThereIsntAMain,
}

/// The book has a definition named `Main`.
pub fn check_main_entry(book: &Book) -> (r: Result<(), DriverError>)
    ensures
        r is Ok <==> exists|i: int| 0 <= i < book.entries@.len() && (#[trigger] book.entries@[i]).name.name@ == "Main"@,
{
    proof { reveal_strlit("Main"); }
    let main = String::from_str("Main");
    let mut i: usize = 0;
    while i < book.entries.len()
        invariant
            i <= book.entries@.len(),
            main@ == "Main"@,
            forall|j: int| 0 <= j < i ==> (#[trigger] book.entries@[j]).name.name@ != "Main"@,
        decreases book.entries@.len() - i,
    {
        if book.entries[i].name.name == main {
            return Ok(());
        }
        i = i + 1;
    }
    Err(DriverError::ThereIsntAMain)
}

} // verus!
