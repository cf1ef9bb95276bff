//! `discarded_wait_result`: the result of `wait_for_*` is discarded, so this wait
//! can never fail.

use crate::diagnostics;
use crate::diagnostics::{Applicability, Diagnostic, DiagnosticView, RemarkView};
use crate::discarded_call;
use crate::discarded_call::Discarded;
use crate::hir::Hir;
use crate::known::Known;
use crate::lint::Lint;
use crate::manual_edge_insets;
use crate::text;
use vstd::prelude::*;

verus! {

/// The waits that return `false` on timeout: the `Query` methods, and the
/// `SemanticApp` conveniences they forward to.
pub open spec fn wait_calls() -> Seq<Known> {
    seq![
        Known::QueryExists,
        Known::QueryGone,
        Known::QueryValue,
        Known::AppExists,
        Known::AppGone,
        Known::AppValue,
    ]
}

/// What both findings start with.
pub open spec fn dropped_wait(hir: Hir, stmt: usize, call: usize) -> DiagnosticView {
    DiagnosticView::bare(
        Lint::DiscardedWaitResult,
        hir.node(stmt).span,
        "the result of `wait_for_*` is discarded, so this wait can never fail"@,
    ).with(
        RemarkView::Label(
            hir.node(call).span,
            "the wait's `false`-on-timeout result is dropped here"@,
        ),
    )
}

/// What is said of a statement that discards a wait.
pub open spec fn finding_of(hir: Hir, discarded: Discarded) -> DiagnosticView {
    match discarded {
        Discarded::AtSemicolon { stmt, call } => dropped_wait(hir, stmt, call).with(
            RemarkView::Suggestion {
                label: "assert the result so a timeout fails the test"@,
                span: hir.node(stmt).span,
                code: "assert!("@ + manual_edge_insets::callsite_or_dots(hir, call) + ");"@,
                applicability: Applicability::MachineApplicable.weakened(
                    hir.node(call).callsite is None,
                    false,
                ),
            },
        ),
        Discarded::NeverRead { stmt, call } => dropped_wait(hir, stmt, call).with(
            RemarkView::Help(
                "`wait_for_*` returns `false` on timeout; wrap it \u{2014} `assert!(app.query().label(..).wait_for_existence(timeout))`"@,
            ),
        ),
    }
}

/// What is said of a block.
pub open spec fn findings(hir: Hir, block: usize) -> Seq<DiagnosticView> {
    discarded_call::discarded_in(hir, block, wait_calls()).map_values(
        |discarded: Discarded| finding_of(hir, discarded),
    )
}

fn start(hir: &Hir, stmt: usize, call: usize) -> (r: Diagnostic)
    requires
        hir.has(stmt),
        hir.has(call),
    ensures
        r@ == dropped_wait(*hir, stmt, call),
{
    let mut found: Diagnostic = Diagnostic::bare(
        Lint::DiscardedWaitResult,
        hir.nodes[stmt].span,
        "the result of `wait_for_*` is discarded, so this wait can never fail",
    );
    found.span_label(
        hir.nodes[call].span,
        "the wait's `false`-on-timeout result is dropped here".to_owned(),
    );
    found
}

/// The finding for one discarded wait: the statement rewrites to
/// `assert!(<call>);` where the result drops at the semicolon; a `let x` that
/// nothing reads has no mechanical rewrite, so there the finding only points at
/// the fix.
fn report(hir: &Hir, discarded: Discarded) -> (r: Diagnostic)
    requires
        discarded.fits(*hir),
    ensures
        r@ == finding_of(*hir, discarded),
{
    match discarded {
        Discarded::AtSemicolon { stmt, call } => {
            let mut found: Diagnostic = start(hir, stmt, call);
            let (source, placeholder): (String, bool) = match &hir.nodes[call].callsite {
                Some(source) => (source.clone(), false),
                None => ("..".to_owned(), true),
            };
            found.span_suggestion(
                hir.nodes[stmt].span,
                "assert the result so a timeout fails the test",
                text::cat3("assert!(", source.as_str(), ");"),
                Applicability::MachineApplicable.weaken(placeholder, false),
            );
            found
        },
        Discarded::NeverRead { stmt, call } => {
            let mut found: Diagnostic = start(hir, stmt, call);
            found.help(
                "`wait_for_*` returns `false` on timeout; wrap it \u{2014} `assert!(app.query().label(..).wait_for_existence(timeout))`".to_owned(),
            );
            found
        },
    }
}

/// Flags the statements of a block that discard the `bool` of a wait: a bare
/// `<call>;`, `let _ = <call>;`, or a `let x = <call>;` that is never read before
/// the block ends.
pub fn check_block(hir: &Hir, block: usize) -> (r: Vec<Diagnostic>)
    requires
        hir.wf(),
        hir.has(block),
    ensures
        diagnostics::found_all(r@) == findings(*hir, block),
{
    let calls = [
        Known::QueryExists,
        Known::QueryGone,
        Known::QueryValue,
        Known::AppExists,
        Known::AppGone,
        Known::AppValue,
    ];
    proof {
        assert(calls@ =~= wait_calls());
    }
    let list: Vec<Discarded> = discarded_call::discarded_calls(hir, block, &calls);
    let mut out: Vec<Diagnostic> = Vec::new();
    let mut i: usize = 0;
    while i < list.len()
        invariant
            i <= list.len(),
            forall|k: int| 0 <= k < list@.len() ==> (#[trigger] list@[k]).fits(*hir),
            out.len() == i,
            forall|k: int| 0 <= k < i ==> (#[trigger] out@[k])@ == finding_of(*hir, list@[k]),
        decreases list.len() - i,
    {
        out.push(report(hir, list[i]));
        i = i + 1;
    }
    proof {
        assert(diagnostics::found_all(out@) =~= findings(*hir, block));
    }
    out
}

/// A wait whose result is dropped at the semicolon is asserted instead, in place
/// of the whole statement; one that a name keeps unread has no such fix.
pub proof fn dropped_waits_are_asserted(hir: Hir, stmt: usize, call: usize)
    ensures
        ({
            let dropped = finding_of(hir, Discarded::AtSemicolon { stmt, call });
            let unread = finding_of(hir, Discarded::NeverRead { stmt, call });
            &&& dropped.span == hir.node(stmt).span
            &&& unread.span == hir.node(stmt).span
            &&& dropped.remarks[1] matches RemarkView::Suggestion {
                label: _,
                span,
                code,
                applicability: _,
            }
            &&& span == hir.node(stmt).span
            &&& hir.node(call).callsite matches Some(source) ==> code == "assert!("@ + source@
                + ");"@
            &&& unread.remarks[1] is Help
        }),
{
}

} // verus!
