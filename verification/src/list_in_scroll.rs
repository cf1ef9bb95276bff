//! `list_in_scroll`: a `List` inside `scroll(..)` is given unbounded height.

use crate::diagnostics;
use crate::diagnostics::{Diagnostic, DiagnosticView, RemarkView};
use crate::hir::{Hir, Kind};
use crate::known::Known;
use crate::lint::Lint;
use vstd::prelude::*;

verus! {

/// The calls that hand their single argument to a `ScrollView`.
pub open spec fn scroll_calls() -> Seq<Known> {
    seq![
        Known::ScrollFn,
        Known::ScrollHorizontalFn,
        Known::ScrollVertical,
        Known::ScrollHorizontal,
    ]
}

/// The expression is of one of the types, references aside.
pub open spec fn typed(hir: Hir, n: usize, items: Seq<Known>) -> bool {
    hir.ty_in(hir.referent(hir.node(n).ty), items)
}

/// Whether the expression's type, references peeled, is one of the items.
pub fn is_ty(hir: &Hir, n: usize, items: &[Known]) -> (r: bool)
    requires
        hir.wf(),
        hir.has(n),
    ensures
        r == typed(*hir, n, items@),
{
    proof {
        assert(hir.node_wf(n));
    }
    hir.is_adt_in(hir.peel_refs(hir.nodes[n].ty), items)
}

/// What stands under the metadata modifiers.
pub open spec fn unwrapped_content(hir: Hir, n: usize) -> usize
    decreases n,
{
    match hir.kind(n) {
        Kind::MethodCall { name: _, receiver, args: _ } => if typed(
            hir,
            n,
            seq![Known::Metadata],
        ) && receiver < n {
            unwrapped_content(hir, receiver)
        } else {
            n
        },
        _ => n,
    }
}

/// What stands under the metadata modifiers: `Metadata` is layout-transparent, and
/// its content is erased, so a `List` under them is only visible on the receiver
/// chain. Sizing wrappers (`.padding()`, `.frame(..)`) bound the list themselves
/// and are not peeled.
fn strip_metadata(hir: &Hir, n: usize) -> (r: usize)
    requires
        hir.wf(),
        hir.has(n),
    ensures
        r == unwrapped_content(*hir, n),
        r <= n,
    decreases n,
{
    let metadata = [Known::Metadata];
    proof {
        assert(hir.node_wf(n));
        assert(metadata@ =~= seq![Known::Metadata]);
    }
    match &hir.nodes[n].kind {
        Kind::MethodCall { receiver, .. } => if is_ty(hir, n, &metadata) {
            strip_metadata(hir, *receiver)
        } else {
            n
        },
        _ => n,
    }
}

/// What is said of an expression.
pub open spec fn finding_at(hir: Hir, n: usize) -> Option<DiagnosticView> {
    match hir.kind(n) {
        Kind::Call { func: _, args } => if args@.len() == 1 && !hir.node(n).span.expanded()
            && hir.calls(n, scroll_calls()) && typed(
            hir,
            unwrapped_content(hir, args@[0]),
            seq![Known::ListView, Known::ListBuilder],
        ) {
            Some(
                DiagnosticView::bare(
                    Lint::ListInScroll,
                    hir.node(n).span,
                    "a `List` inside `scroll(..)` is given unbounded height"@,
                ).with(
                    RemarkView::Label(
                        hir.node(args@[0]).span,
                        "this `List` scrolls on its own"@,
                    ),
                ).with(
                    RemarkView::Help(
                        "`List` scrolls itself and realises only the visible rows; drop the outer `scroll(..)`, or use `Lazy::for_each` inside the scroll view when a plain reactive sequence was wanted"@,
                    ),
                ),
            )
        } else {
            None
        },
        _ => None,
    }
}

/// Flags `scroll(..)`, `scroll_horizontal(..)`, `ScrollView::vertical(..)` and
/// `ScrollView::horizontal(..)` calls whose content is a `List`: passed bare, under
/// `Metadata` modifiers, or as a `ListBuilder`.
pub fn check_expr(hir: &Hir, n: usize) -> (r: Option<Diagnostic>)
    requires
        hir.wf(),
        hir.has(n),
    ensures
        diagnostics::found(r) == finding_at(*hir, n),
{
    if hir.nodes[n].span.from_expansion() {
        return None;
    }
    proof {
        assert(hir.node_wf(n));
    }
    let content: usize = match &hir.nodes[n].kind {
        Kind::Call { args, .. } => if args.len() == 1 {
            args[0]
        } else {
            return None;
        },
        _ => {
            return None;
        },
    };
    let calls = [
        Known::ScrollFn,
        Known::ScrollHorizontalFn,
        Known::ScrollVertical,
        Known::ScrollHorizontal,
    ];
    proof {
        assert(calls@ =~= scroll_calls());
    }
    if !hir.is_call_to(n, &calls) {
        return None;
    }
    let inner: usize = strip_metadata(hir, content);
    if !is_ty(hir, inner, &[Known::ListView, Known::ListBuilder]) {
        return None;
    }
    let mut found: Diagnostic = Diagnostic::bare(
        Lint::ListInScroll,
        hir.nodes[n].span,
        "a `List` inside `scroll(..)` is given unbounded height",
    );
    found.span_label(hir.nodes[content].span, "this `List` scrolls on its own".to_owned());
    found.help(
        "`List` scrolls itself and realises only the visible rows; drop the outer `scroll(..)`, or use `Lazy::for_each` inside the scroll view when a plain reactive sequence was wanted".to_owned(),
    );
    Some(found)
}

/// A list is reported exactly where it is the content of a scroll view, whatever
/// metadata is put on it in between.
pub proof fn scrolled_lists_are_reported(hir: Hir, n: usize, content: usize)
    requires
        hir.kind(n) matches Kind::Call { func: _, args } && args@ == seq![content],
        !hir.node(n).span.expanded(),
        hir.calls(
            n,
            seq![
                Known::ScrollFn,
                Known::ScrollHorizontalFn,
                Known::ScrollVertical,
                Known::ScrollHorizontal,
            ],
        ),
    ensures
        finding_at(hir, n) is Some <==> hir.ty_in(
            hir.referent(hir.node(unwrapped_content(hir, content)).ty),
            seq![Known::ListView, Known::ListBuilder],
        ),
        finding_at(hir, n) matches Some(finding) ==> finding.span == hir.node(n).span,
        !(hir.kind(content) is MethodCall) ==> unwrapped_content(hir, content) == content,
        hir.kind(content) matches Kind::MethodCall { name: _, receiver, args: _ } ==> (receiver
            < content ==> unwrapped_content(hir, content) == (if hir.ty_in(
            hir.referent(hir.node(content).ty),
            seq![Known::Metadata],
        ) {
            unwrapped_content(hir, receiver)
        } else {
            content
        })),
{
    assert(scroll_calls() =~= seq![
        Known::ScrollFn,
        Known::ScrollHorizontalFn,
        Known::ScrollVertical,
        Known::ScrollHorizontal,
    ]);
}

} // verus!
