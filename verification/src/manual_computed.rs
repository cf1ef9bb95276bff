//! `manual_computed`: `Computed::new(signal)` and the `From`, `Into` and
//! `IntoComputed` spellings of the same conversion restate
//! `SignalExt::computed()`.

use crate::computed;
use crate::diagnostics;
use crate::diagnostics::{Applicability, Diagnostic, DiagnosticView, RemarkView};
use crate::hir::Hir;
use crate::known::Known;
use crate::lint::Lint;
use crate::text;
use vstd::prelude::*;

verus! {

/// Callees that spell the erasure by hand. In every shape the first operand is the
/// signal.
pub open spec fn erasures() -> Seq<Known> {
    seq![Known::ComputedNew, Known::From, Known::Into, Known::IntoComputedFn]
}

/// The place that the expression clones.
pub open spec fn clone_of(hir: Hir, n: usize) -> Option<usize> {
    let call = hir.undropped(n);
    if hir.resolves_item(call, Known::Clone) {
        match hir.first_operand(call) {
            Some(s) => if hir.node(s).place {
                Some(s)
            } else {
                None
            },
            None => None,
        }
    } else {
        None
    }
}

/// `s`, when the expression is `s.clone()` in either spelling over a place `s`:
/// the clone exists only to hand the erasure an owned handle, which
/// `s.computed()` produces itself. A receiver that is no place is a real
/// computation (`make().clone()`).
pub fn cloned_place(hir: &Hir, n: usize) -> (r: Option<usize>)
    requires
        hir.wf(),
        hir.has(n),
    ensures
        r == clone_of(*hir, n),
        r matches Some(s) ==> hir.has(s),
{
    let call: usize = hir.peel_drop_temps(n);
    if !hir.resolves_of(call, Known::Clone) {
        return None;
    }
    match hir.first_arg(call) {
        Some(s) => if hir.nodes[s].place {
            Some(s)
        } else {
            None
        },
        None => None,
    }
}

/// What is said of an erasure of `receiver`.
pub open spec fn erasure_finding(hir: Hir, n: usize, receiver: usize) -> DiagnosticView {
    match hir.node(receiver).sugg {
        Some(sugg) => DiagnosticView::with_sugg(
            Lint::ManualComputed,
            hir.node(n).span,
            "this erasure is `SignalExt::computed`"@,
            "use the method form"@,
            sugg.operand@ + ".computed()"@,
            Applicability::MachineApplicable,
        ),
        None => DiagnosticView::bare(
            Lint::ManualComputed,
            hir.node(n).span,
            "this erasure is `SignalExt::computed`"@,
        ),
    }
}

/// What is said of an expression.
pub open spec fn finding_at(hir: Hir, n: usize) -> Option<DiagnosticView> {
    match hir.first_operand(n) {
        Some(signal) => if hir.node(n).span.expanded() || !hir.resolves(n, erasures()) || hir.node(
            signal,
        ).span.expanded() || !computed::erases(hir, n, signal) {
            None
        } else {
            Some(
                erasure_finding(
                    hir,
                    n,
                    match clone_of(hir, signal) {
                        Some(s) => s,
                        None => signal,
                    },
                ),
            )
        },
        None => None,
    }
}

/// Flags the hand-written spellings of a `Computed` erasure, wherever the erased
/// value is a signal whose `Signal::Output` is the `T` of the `Computed<T>`. A
/// signal that is `s.clone()` over a place `s` rewrites to `s.computed()`.
pub fn check_expr(hir: &Hir, n: usize) -> (r: Option<Diagnostic>)
    requires
        hir.wf(),
        hir.has(n),
    ensures
        diagnostics::found(r) == finding_at(*hir, n),
{
    if hir.nodes[n].span.from_expansion() {
        return None;
    }
    let calls = [Known::ComputedNew, Known::From, Known::Into, Known::IntoComputedFn];
    proof {
        assert(calls@ =~= erasures());
    }
    if !hir.resolves_to(n, &calls) {
        return None;
    }
    let signal: usize = match hir.first_arg(n) {
        Some(signal) => signal,
        None => {
            return None;
        },
    };
    if hir.nodes[signal].span.from_expansion() || !computed::erases_signal(hir, n, signal) {
        return None;
    }
    let receiver: usize = match cloned_place(hir, signal) {
        Some(s) => s,
        None => signal,
    };
    Some(
        match &hir.nodes[receiver].sugg {
            Some(sugg) => Diagnostic::with_sugg(
                Lint::ManualComputed,
                hir.nodes[n].span,
                "this erasure is `SignalExt::computed`",
                "use the method form",
                text::cat(sugg.operand.as_str(), ".computed()"),
                Applicability::MachineApplicable,
            ),
            None => Diagnostic::bare(
                Lint::ManualComputed,
                hir.nodes[n].span,
                "this erasure is `SignalExt::computed`",
            ),
        },
    )
}

/// The method form erases the very signal that was erased, or the place that it
/// was cloned from, and only where the result is a `Computed` of the signal's own
/// output.
pub proof fn erasures_keep_their_signal(hir: Hir, n: usize)
    ensures
        finding_at(hir, n) matches Some(finding) ==> {
            &&& hir.first_operand(n) matches Some(signal)
            &&& finding.span == hir.node(n).span
            &&& hir.ty_arg(hir.node(n).ty, Known::Computed, 0) is Some
            &&& hir.expr_ty(signal).output == hir.ty_arg(hir.node(n).ty, Known::Computed, 0)
            &&& {
                let call = hir.undropped(signal);
                let erased = match hir.first_operand(call) {
                    Some(place) => if hir.resolves_item(call, Known::Clone) && hir.node(
                        place,
                    ).place {
                        place
                    } else {
                        signal
                    },
                    None => signal,
                };
                hir.node(erased).sugg matches Some(sugg) ==> (
                finding.remarks[0] matches RemarkView::Suggestion {
                    label: _,
                    span,
                    code,
                    applicability: _,
                } && span == hir.node(n).span && code == sugg.operand@ + ".computed()"@)
            }
        },
{
}

} // verus!
