//! The syntax checker: runs the lexer and the parser over a source text and
//! reports every problem found, with a suggestion where a rule knows one.
use vstd::prelude::*;
use vstd::string::StringExecFns;
use crate::lexer::{tokenize_spec, Lexer};
use crate::parser::{errors_view, ParseError, Parser, SParseError, Severity};
use crate::grammar::parse_program;
use crate::rules::{opt_text, suggest_fix, suggestion_for};

verus! {

broadcast use vstd::std_specs::vec::axiom_spec_into_iter;

/// A problem in a source text, as the checker reports it.
#[derive(Debug, Clone)]
pub struct Diagnostic {
    pub message: String,
    pub line: usize,
    pub column: usize,
    pub severity: Severity,
    pub suggestion: Option<String>,
}

/// The mathematical value of a diagnostic.
pub struct SDiagnostic {
    pub message: Seq<char>,
    pub line: usize,
    pub column: usize,
    pub severity: Severity,
    pub suggestion: Option<Seq<char>>,
}

impl View for Diagnostic {
    type V = SDiagnostic;

    open spec fn view(&self) -> SDiagnostic {
        SDiagnostic {
            message: self.message@,
            line: self.line,
            column: self.column,
            severity: self.severity,
            suggestion: opt_text(self.suggestion),
        }
    }
}

impl From<ParseError> for Diagnostic {
    /// The same message, place and severity, with no suggestion.
    fn from(err: ParseError) -> (r: Self) {
        Diagnostic { message: err.message, line: err.line, column: err.column, severity: err.severity, suggestion: None }
    }
}

impl vstd::std_specs::convert::FromSpecImpl<ParseError> for Diagnostic {
    open spec fn obeys_from_spec() -> bool {
        true
    }

    open spec fn from_spec(err: ParseError) -> Self {
        Diagnostic { message: err.message, line: err.line, column: err.column, severity: err.severity, suggestion: None }
    }
}

/// The diagnostic reported for a parse error.
pub open spec fn diagnostic_of(e: SParseError) -> SDiagnostic {
    SDiagnostic {
        message: e.message,
        line: e.line,
        column: e.column,
        severity: e.severity,
        suggestion: suggestion_for(e.message),
    }
}

pub open spec fn diagnostics_view(v: Seq<Diagnostic>) -> Seq<SDiagnostic> {
    v.map_values(|d: Diagnostic| d@)
}

/// What the checker reports for a source text: one diagnostic for each
/// problem the parser records, in order.
pub open spec fn check_spec(source: Seq<char>) -> Seq<SDiagnostic> {
    parse_program(tokenize_spec(source), 0, Seq::empty()).2.map_values(|e: SParseError| diagnostic_of(e))
}

/// Runs the lexer and the parser over `source` and returns every
/// diagnostic found, with rule-based suggestions attached where one applies.
pub fn check(source: &str) -> (r: Vec<Diagnostic>)
    requires
        source@.len() < usize::MAX,
    ensures
        diagnostics_view(r@) == check_spec(source@),
{
    let mut lexer = Lexer::new(String::from_str(source));
    let tokens = lexer.tokenize();
    let mut parser = Parser::new(tokens);
    let (_statements, errors) = parser.parse();
    let ghost errs = errors_view(errors@);
    let ghost ev = errors@;
    let mut out: Vec<Diagnostic> = Vec::new();
    for err in it: errors.into_iter()
        invariant
            it.seq() == ev,
            out@.len() == it.index(),
            forall|j: int| 0 <= j < it.index() ==> (#[trigger] out@[j])@ == diagnostic_of(ev[j]@),
    {
        let mut diagnostic = Diagnostic::from(err);
        diagnostic.suggestion = suggest_fix(diagnostic.message.as_str());
        out.push(diagnostic);
    }
    assert(diagnostics_view(out@) =~= errs.map_values(|e: SParseError| diagnostic_of(e)));
    out
}

} // verus!
