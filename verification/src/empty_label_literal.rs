//! `empty_label_literal`: an empty string literal passed as a control's mandatory
//! label.

use crate::diagnostics;
use crate::diagnostics::{Diagnostic, DiagnosticView, RemarkView};
use crate::hir;
use crate::hir::{Hir, Kind, Lit, Span};
use crate::known::Known;
use crate::lint::Lint;
use crate::text;
use vstd::prelude::*;

verus! {

/// The argument is an empty or blank string literal.
pub open spec fn blank_literal(hir: Hir, arg: usize) -> bool {
    let n = hir.undropped(arg);
    match hir.kind(n) {
        Kind::Lit { lit: Lit::Str(text) } => text::trimmed(text@).len() == 0 && !hir.node(
            n,
        ).span.expanded(),
        _ => false,
    }
}

/// Whether the argument, drop-temps peeled, is a string literal that no macro
/// wrote and whose trimmed text is empty.
pub fn empty_literal(hir: &Hir, arg: usize) -> (r: bool)
    requires
        hir.wf(),
        hir.has(arg),
    ensures
        r == blank_literal(*hir, arg),
{
    let n: usize = hir.peel_drop_temps(arg);
    match &hir.nodes[n].kind {
        Kind::Lit { lit: Lit::Str(text) } => {
            let inner: Vec<char> = text::chars(text::trim(text.as_str()).as_str());
            inner.len() == 0 && !hir.nodes[n].span.from_expansion()
        },
        _ => false,
    }
}

/// What is said of an empty label.
pub open spec fn label_finding(span: Span) -> DiagnosticView {
    DiagnosticView::bare(
        Lint::EmptyLabelLiteral,
        span,
        "an empty label defeats the mandatory label"@,
    ).with(
        RemarkView::Label(
            span,
            "screen readers and `waterui-testing` queries find the control by this label"@,
        ),
    ).with(
        RemarkView::Help(
            "give the control its real name; to hide it visually use `Label::new(name, icon).icon_only()` / `.hide_label()` or `LabelDisplayMode::IconOnly`"@,
        ),
    )
}

/// What is said of an argument in a label position.
pub open spec fn arg_finding(hir: Hir, arg: usize) -> Option<DiagnosticView> {
    if blank_literal(hir, arg) {
        Some(label_finding(hir.node(arg).span))
    } else {
        None
    }
}

fn report(hir: &Hir, arg: usize) -> (r: Option<Diagnostic>)
    requires
        hir.wf(),
        hir.has(arg),
    ensures
        diagnostics::found(r) == arg_finding(*hir, arg),
{
    if !empty_literal(hir, arg) {
        return None;
    }
    let span: Span = hir.nodes[arg].span;
    let mut found: Diagnostic = Diagnostic::bare(
        Lint::EmptyLabelLiteral,
        span,
        "an empty label defeats the mandatory label",
    );
    found.span_label(
        span,
        "screen readers and `waterui-testing` queries find the control by this label".to_owned(),
    );
    found.help(
        "give the control its real name; to hide it visually use `Label::new(name, icon).icon_only()` / `.hide_label()` or `LabelDisplayMode::IconOnly`".to_owned(),
    );
    Some(found)
}

/// What is said of the first `n` operands of a call that fill a label parameter.
pub open spec fn bounded_upto(hir: Hir, call: usize, n: int) -> Seq<DiagnosticView>
    decreases n,
{
    if n <= 0 {
        seq![]
    } else {
        bounded_upto(hir, call, n - 1) + diagnostics::found_seq(
            if hir.bounded(call, n - 1, seq![Known::IntoLabel]) {
                arg_finding(hir, hir.operands(call)[n - 1])
            } else {
                None
            },
        )
    }
}

/// What is said of the first `n` of the arguments.
pub open spec fn args_upto(hir: Hir, args: Seq<usize>, n: int) -> Seq<DiagnosticView>
    decreases n,
{
    if n <= 0 {
        seq![]
    } else {
        args_upto(hir, args, n - 1) + diagnostics::found_seq(arg_finding(hir, args[n - 1]))
    }
}

/// What is said of the arguments of `.a11y_label(..)`.
pub open spec fn a11y_findings(hir: Hir, n: usize) -> Seq<DiagnosticView> {
    match hir.kind(n) {
        Kind::MethodCall { name: _, receiver: _, args } => if hir.resolves_item(
            n,
            Known::A11yLabel,
        ) {
            args_upto(hir, args@, args@.len() as int)
        } else {
            seq![]
        },
        _ => seq![],
    }
}

/// What is said of an expression.
pub open spec fn findings(hir: Hir, n: usize) -> Seq<DiagnosticView> {
    if hir.is_call(n) {
        bounded_upto(hir, n, hir.operands(n).len() as int) + a11y_findings(hir, n)
    } else {
        seq![]
    }
}

fn push_a11y(hir: &Hir, n: usize, out: &mut Vec<Diagnostic>)
    requires
        hir.wf(),
        hir.has(n),
    ensures
        diagnostics::found_all(final(out)@) == diagnostics::found_all(old(out)@) + a11y_findings(
            *hir,
            n,
        ),
{
    let ghost before = diagnostics::found_all(out@);
    proof {
        assert(hir.node_wf(n));
        assert(before =~= before + seq![]);
    }
    if let Kind::MethodCall { args, .. } = &hir.nodes[n].kind {
        if hir.resolves_of(n, Known::A11yLabel) {
            let mut i: usize = 0;
            while i < args.len()
                invariant
                    i <= args.len(),
                    hir.wf(),
                    hir.has(n),
                    hir::all_below(args@, n as int),
                    diagnostics::found_all(out@) == before + args_upto(*hir, args@, i as int),
                decreases args.len() - i,
            {
                let ghost prior = args_upto(*hir, args@, i as int);
                let finding: Option<Diagnostic> = report(hir, args[i]);
                let ghost said = diagnostics::found_seq(diagnostics::found(finding));
                diagnostics::push_found(out, finding);
                proof {
                    assert(before + prior + said =~= before + (prior + said));
                }
                i = i + 1;
            }
        }
    }
}

/// Flags an empty or whitespace-only string literal passed to a parameter bound
/// by `IntoLabel`, or to `.a11y_label(..)`, whose parameter is bound otherwise.
pub fn check_expr(hir: &Hir, n: usize) -> (r: Vec<Diagnostic>)
    requires
        hir.wf(),
        hir.has(n),
    ensures
        diagnostics::found_all(r@) == findings(*hir, n),
{
    let mut out: Vec<Diagnostic> = Vec::new();
    proof {
        assert(diagnostics::found_all(out@) =~= seq![]);
    }
    if !hir.call(n) {
        return out;
    }
    let label = [Known::IntoLabel];
    proof {
        assert(label@ =~= seq![Known::IntoLabel]);
    }
    let args: Vec<usize> = hir.call_args(n);
    let mut i: usize = 0;
    while i < args.len()
        invariant
            i <= args.len(),
            hir.wf(),
            hir.has(n),
            label@ == seq![Known::IntoLabel],
            args@ == hir.operands(n),
            hir::all_below(args@, n as int),
            diagnostics::found_all(out@) == bounded_upto(*hir, n, i as int),
        decreases args.len() - i,
    {
        let finding: Option<Diagnostic> = if hir.arg_has_bound(n, i, &label) {
            report(hir, args[i])
        } else {
            None
        };
        diagnostics::push_found(&mut out, finding);
        i = i + 1;
    }
    push_a11y(hir, n, &mut out);
    out
}

/// A label is empty where it is a string literal of white space alone, written
/// there and not by a macro.
pub proof fn empty_labels_are_white_space(hir: Hir, arg: usize)
    ensures
        arg_finding(hir, arg) is Some <==> {
            let n = hir.undropped(arg);
            &&& !hir.node(n).span.expanded()
            &&& hir.kind(n) matches Kind::Lit { lit: Lit::Str(text) }
            &&& forall|i: int| 0 <= i < text@.len() ==> text::white_space(#[trigger] text@[i])
        },
{
    match hir.kind(hir.undropped(arg)) {
        Kind::Lit { lit: Lit::Str(text) } => {
            let ends = text::trimming_takes_white_space_off_the_ends(text@);
        },
        _ => {},
    }
}

proof fn lemma_bounded(hir: Hir, call: usize, n: int, i: int)
    requires
        0 <= i < n,
        hir.bounded(call, i, seq![Known::IntoLabel]),
        arg_finding(hir, hir.operands(call)[i]) is Some,
    ensures
        bounded_upto(hir, call, n).contains(arg_finding(hir, hir.operands(call)[i])->0),
    decreases n,
{
    let all = bounded_upto(hir, call, n);
    let rest = bounded_upto(hir, call, n - 1);
    let finding = arg_finding(hir, hir.operands(call)[i])->0;
    if i < n - 1 {
        lemma_bounded(hir, call, n - 1, i);
        let k = choose|k: int| 0 <= k < rest.len() && rest[k] == finding;
        assert(all[k] == finding);
    } else {
        assert(all[rest.len() as int] == finding);
    }
}

/// Every empty literal at a label parameter of a call is reported, where it
/// stands.
pub proof fn empty_labels_are_reported(hir: Hir, call: usize, i: int)
    requires
        hir.is_call(call),
        0 <= i < hir.operands(call).len(),
        hir.bounded(call, i, seq![Known::IntoLabel]),
        blank_literal(hir, hir.operands(call)[i]),
    ensures
        exists|k: int|
            0 <= k < findings(hir, call).len() && (#[trigger] findings(hir, call)[k]).span
                == hir.node(hir.operands(call)[i]).span,
{
    let arg = hir.operands(call)[i];
    let finding = label_finding(hir.node(arg).span);
    let first = bounded_upto(hir, call, hir.operands(call).len() as int);
    lemma_bounded(hir, call, hir.operands(call).len() as int, i);
    let k = choose|k: int| 0 <= k < first.len() && first[k] == finding;
    assert(findings(hir, call)[k] == finding);
}

} // verus!
