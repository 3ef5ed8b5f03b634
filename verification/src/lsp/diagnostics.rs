//! Parse errors of Pax documents as editor diagnostics.

use vstd::prelude::*;
use crate::lsp::model::Position;

verus! {

/// A parse error: where it starts and ends, as one-based (line, column)
/// pairs, and what went wrong.
pub struct PaxParseError {
    pub start: (usize, usize),
    pub end: (usize, usize),
    pub error_message: String,
}

/// A span of a document between two positions.
#[derive(Clone, Copy, Debug, PartialEq, Eq, Structural)]
pub struct Range {
    pub start: Position,
    pub end: Position,
}

/// How serious a diagnostic is; parse errors are errors.
#[derive(Clone, Copy, Debug, PartialEq, Eq, Structural)]
pub enum DiagnosticSeverity {
    Error,
    Warning,
    Information,
    Hint,
}

/// A message that the editor shows over a span of a document.
pub struct Diagnostic {
    pub range: Range,
    pub message: String,
    pub severity: Option<DiagnosticSeverity>,
}

/// A one-based (line, column) pair is a real position: neither is zero.
pub open spec fn is_one_based(p: (usize, usize)) -> bool {
    p.0 >= 1 && p.1 >= 1
}

/// The zero-based position of a one-based (line, column) pair, each kept to
/// its low 32 bits as the editor's positions are.
pub open spec fn zero_based(p: (usize, usize)) -> Position {
    Position { line: (p.0 - 1) as u32, character: (p.1 - 1) as u32 }
}

/// The diagnostic that reports a parse error.
pub open spec fn diagnostic_of(err: PaxParseError) -> Diagnostic {
    Diagnostic {
        range: Range { start: zero_based(err.start), end: zero_based(err.end) },
        message: err.error_message,
        severity: Some(DiagnosticSeverity::Error),
    }
}

/// The diagnostic that reports `err`.
pub fn to_diagnostic(err: PaxParseError) -> (r: Diagnostic)
    requires
        is_one_based(err.start),
        is_one_based(err.end),
    ensures
        r == diagnostic_of(err),
{
    Diagnostic {
        range: Range {
            start: Position {
                line: (err.start.0 - 1) as u32,
                character: (err.start.1 - 1) as u32,
            },
            end: Position { line: (err.end.0 - 1) as u32, character: (err.end.1 - 1) as u32 },
        },
        message: err.error_message,
        severity: Some(DiagnosticSeverity::Error),
    }
}

/// The diagnostics that report `errors`, one each, in order; none where
/// there is no error.
pub fn diagnostics_for(errors: Vec<PaxParseError>) -> (r: Vec<Diagnostic>)
    requires
        forall|i: int|
            0 <= i < errors@.len() ==> is_one_based(#[trigger] errors@[i].start) && is_one_based(
                errors@[i].end,
            ),
    ensures
        r@ == errors@.map_values(|e: PaxParseError| diagnostic_of(e)),
{
    let ghost all = errors@;
    let mut rest = errors;
    assert(all.skip(0) =~= all);
    let mut out: Vec<Diagnostic> = Vec::new();
    while rest.len() > 0
        invariant
            out@.len() + rest@.len() == all.len(),
            rest@ == all.skip(out@.len() as int),
            out@ == all.take(out@.len() as int).map_values(|e: PaxParseError| diagnostic_of(e)),
            forall|i: int|
                0 <= i < all.len() ==> is_one_based(#[trigger] all[i].start) && is_one_based(
                    all[i].end,
                ),
        decreases rest@.len(),
    {
        let ghost k = out@.len() as int;
        let err = rest.remove(0);
        assert(err == all[k]);
        out.push(to_diagnostic(err));
        assert(all.skip(k + 1) =~= all.skip(k).remove(0));
        assert(all.take(k + 1).map_values(|e: PaxParseError| diagnostic_of(e)) =~= all.take(
            k,
        ).map_values(|e: PaxParseError| diagnostic_of(e)).push(diagnostic_of(all[k])));
    }
    assert(all.take(all.len() as int) =~= all);
    out
}

} // verus!
