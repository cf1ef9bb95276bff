//! `manual_muted_foreground`: a hand-written `.foreground(MutedForeground)` where
//! `.muted()` is the named modifier.

use crate::diagnostics;
use crate::diagnostics::{Applicability, Diagnostic, DiagnosticView, RemarkView};
use crate::hir::{Hir, Kind, Res, Span};
use crate::known::Known;
use crate::lint::Lint;
use crate::text;
use vstd::prelude::*;

verus! {

/// The expression names the muted-foreground token.
pub open spec fn muted_token(hir: Hir, n: usize) -> bool {
    match hir.kind(n) {
        Kind::Path { plain: _, segments: _, res: Res::Def { def, kind: _ } } => hir.is_def(
            hir.target(def),
            Known::MutedForeground,
        ),
        _ => false,
    }
}

/// Whether the expression is a path naming the `MutedForeground` token: a unit
/// struct, so the path lands on its constructor, which is taken for the struct.
pub fn is_muted_foreground(hir: &Hir, n: usize) -> (r: bool)
    requires
        hir.has(n),
    ensures
        r == muted_token(*hir, n),
{
    match &hir.nodes[n].kind {
        Kind::Path { res: Res::Def { def, .. }, .. } => hir.def_path_eq(
            hir.target_did(*def),
            Known::MutedForeground,
        ),
        _ => false,
    }
}

/// What is said of `.foreground(MutedForeground)` behind the byte `lo`.
pub open spec fn muted_finding(hir: Hir, n: usize, lo: u32) -> DiagnosticView {
    let span = hir.node(n).span.from_lo(lo);
    DiagnosticView::with_sugg(
        Lint::ManualMutedForeground,
        span,
        "`.foreground(MutedForeground)` restates `.muted()`"@,
        "use `.muted()`"@,
        ".muted()"@,
        Applicability::MachineApplicable.guarded(hir.source_between(n, span.lo, span.hi)),
    )
}

/// What is said of an expression.
pub open spec fn finding_at(hir: Hir, n: usize) -> Option<DiagnosticView> {
    match hir.kind(n) {
        Kind::MethodCall { name, receiver, args } => if !hir.node(n).span.expanded()
            && args@.len() == 1 && name.name@ == "foreground"@ && hir.resolves_item(
            n,
            Known::Foreground,
        ) && muted_token(hir, args@[0]) {
            Some(muted_finding(hir, n, hir.node(receiver).callsite_span.hi))
        } else {
            None
        },
        _ => None,
    }
}

/// Flags `.foreground(MutedForeground)`, under any spelling of the token. The
/// replacement runs from the `.` to the closing parenthesis: the receiver and the
/// chain on either side stay untouched. A receiver that a macro wrote ends where
/// the macro call ends, so that the replacement starts at the `.` the user wrote.
pub fn check_expr(hir: &Hir, n: usize) -> (r: Option<Diagnostic>)
    requires
        hir.wf(),
        hir.has(n),
    ensures
        diagnostics::found(r) == finding_at(*hir, n),
{
    if hir.nodes[n].span.from_expansion() {
        return None;
    }
    proof {
        assert(hir.node_wf(n));
    }
    match &hir.nodes[n].kind {
        Kind::MethodCall { name, receiver, args } => {
            if args.len() != 1 || !text::str_eq(name.name.as_str(), "foreground")
                || !hir.resolves_of(n, Known::Foreground) || !is_muted_foreground(hir, args[0]) {
                return None;
            }
            let lo: u32 = hir.nodes[*receiver].callsite_span.hi;
            let span: Span = hir.nodes[n].span.with_lo(lo);
            let applicability: Applicability = diagnostics::comment_guard(
                &hir.snippet_between(n, span.lo, span.hi),
                Applicability::MachineApplicable,
            );
            Some(
                Diagnostic::with_sugg(
                    Lint::ManualMutedForeground,
                    span,
                    "`.foreground(MutedForeground)` restates `.muted()`",
                    "use `.muted()`",
                    ".muted()".to_owned(),
                    applicability,
                ),
            )
        },
        _ => None,
    }
}

/// What is replaced is exactly a `.foreground(..)` call whose one argument is the
/// muted token, from the end of its receiver on.
pub proof fn muted_foregrounds_are_found(hir: Hir, n: usize)
    ensures
        finding_at(hir, n) is Some <==> {
            &&& hir.kind(n) matches Kind::MethodCall { name, receiver: _, args }
            &&& !hir.node(n).span.expanded()
            &&& name.name@ == "foreground"@
            &&& hir.resolves_item(n, Known::Foreground)
            &&& args@.len() == 1
            &&& hir.kind(args@[0]) matches Kind::Path {
                plain: _,
                segments: _,
                res: Res::Def { def, kind: _ },
            }
            &&& hir.is_def(hir.target(def), Known::MutedForeground)
        },
        finding_at(hir, n) matches Some(finding) ==> (hir.kind(n) matches Kind::MethodCall {
            name: _,
            receiver,
            args: _,
        } && finding.span == hir.node(n).span.from_lo(hir.node(receiver).callsite_span.hi) && (
        finding.remarks[0] matches RemarkView::Suggestion {
            label: _,
            span,
            code,
            applicability: _,
        } && span == finding.span && code == ".muted()"@)),
{
}

} // verus!
