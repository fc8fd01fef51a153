//! The whole front end: from source text to a checked script.

use crate::ast::Script;
use crate::diag::{diagnostic_views, Diagnostic, DiagnosticView};
use crate::parser::{parse, parse_text};
use crate::script::{check_script, tc_script};
use crate::syntax::{report_errors, source_text, spec_syntax_diagnostic, SyntaxError};
use crate::typecheck::Intrinsics;
use vstd::prelude::*;

verus! {

/// The diagnostics for the syntax errors of a text, in their order.
pub open spec fn syntax_diagnostics(source: Seq<char>, errors: Seq<SyntaxError>) -> Seq<
    DiagnosticView,
> {
    Seq::new(
        errors.len(),
        |i: int| spec_syntax_diagnostic(errors[i], source_text(source, errors[i].span)),
    )
}

/// Reads and checks a script. The script is type-checked only if it was
/// read without any error; it is returned only if it passed the check, and
/// is then annotated in full.
pub fn compile(source: &str, intrinsics: &Intrinsics) -> (r: Result<Script, Vec<Diagnostic>>)
    ensures
        match parse_text(source@) {
            Err(errors) => r is Err && diagnostic_views(r->Err_0@) == syntax_diagnostics(
                source@,
                errors,
            ),
            Ok(script) => match check_script(script, intrinsics@) {
                Ok(checked) => r is Ok && r->Ok_0@ == checked,
                Err(diagnostics) => r is Err && diagnostic_views(r->Err_0@) == diagnostics,
            },
        },
{
    match parse(source) {
        Err(errors) => {
            let diagnostics = report_errors(&errors, source);
            proof {
                assert(diagnostic_views(diagnostics@) =~= syntax_diagnostics(source@, errors@));
            }
            Err(diagnostics)
        },
        Ok(script) => {
            let mut script = script;
            match tc_script(&mut script, intrinsics) {
                Ok(()) => Ok(script),
                Err(diagnostics) => Err(diagnostics),
            }
        },
    }
}

} // verus!
