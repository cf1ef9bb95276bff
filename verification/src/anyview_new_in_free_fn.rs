//! `anyview_new_in_free_fn`: `AnyView::new` in a free function instead of the
//! postfix `.anyview()`.

use crate::anyview;
use crate::diagnostics;
use crate::diagnostics::{Applicability, Diagnostic, DiagnosticView, RemarkView};
use crate::hir::{DefKind, Hir, ItemKind, Kind, Namespace, Res, Span};
use crate::imports;
use crate::imports::{Bare, Module, Query};
use crate::known::Known;
use crate::lint::Lint;
use crate::text;
use vstd::prelude::*;

verus! {

/// The nearest item around the node is a free function.
pub open spec fn within_free_fn(hir: Hir, n: usize) -> bool
    decreases hir.nodes@.len() - n,
{
    match hir.up(n) {
        Some(p) => match hir.kind(p) {
            Kind::Item { item, params: _, body: _ } => item is Fn,
            Kind::ImplItem { .. } => false,
            Kind::TraitItem { .. } => false,
            Kind::ForeignItem => false,
            _ => within_free_fn(hir, p),
        },
        None => false,
    }
}

/// Whether the node sits inside a free `fn`: the nearest enclosing item is one.
/// Methods, `const` and `static` initialisers, and foreign items are not; a
/// closure inside a free `fn` keeps the function's answer.
pub fn in_free_fn(hir: &Hir, n: usize) -> (r: bool)
    requires
        hir.wf(),
        hir.has(n),
    ensures
        r == within_free_fn(*hir, n),
    decreases hir.nodes.len() - n,
{
    match hir.parent(n) {
        Some(p) => match &hir.nodes[p].kind {
            Kind::Item { item: ItemKind::Fn { .. }, .. } => true,
            Kind::Item { .. } | Kind::ImplItem { .. } | Kind::TraitItem { .. }
            | Kind::ForeignItem => false,
            _ => in_free_fn(hir, p),
        },
        None => false,
    }
}

/// `.anyview()` is called on the node.
pub open spec fn erased_again(hir: Hir, n: usize) -> bool {
    match hir.up(n) {
        Some(p) => match hir.kind(p) {
            Kind::MethodCall { name: _, receiver, args } => receiver == n && args@.len() == 0
                && hir.calls_item(p, Known::AnyViewExt),
            _ => false,
        },
        None => false,
    }
}

/// Whether the node is the receiver of a `.anyview()` call: rewriting the inner
/// call would produce `x.anyview().anyview()`.
pub fn anyview_receiver(hir: &Hir, n: usize) -> (r: bool)
    requires
        hir.wf(),
        hir.has(n),
    ensures
        r == erased_again(*hir, n),
{
    match hir.parent(n) {
        Some(p) => match &hir.nodes[p].kind {
            Kind::MethodCall { receiver, args, .. } => *receiver == n && args.len() == 0
                && hir.is_call_of(p, Known::AnyViewExt),
            _ => false,
        },
        None => false,
    }
}

/// The path names `AnyView::new`.
pub open spec fn names_new(hir: Hir, func: usize) -> bool {
    match hir.kind(func) {
        Kind::Path { plain: _, segments: _, res: Res::Def { def, kind } } => kind
            == DefKind::AssocFn && hir.is_def(def, Known::AnyViewNew),
        _ => false,
    }
}

/// The view that an `AnyView::new` call erases.
pub open spec fn constructed(hir: Hir, n: usize) -> Option<usize> {
    match hir.kind(n) {
        Kind::Call { func, args } => if !hir.node(n).span.expanded() && args@.len() == 1
            && names_new(hir, func) {
            Some(args@[0])
        } else {
            None
        },
        _ => None,
    }
}

fn constructed_view(hir: &Hir, n: usize) -> (r: Option<usize>)
    requires
        hir.wf(),
        hir.has(n),
    ensures
        r == constructed(*hir, n),
        r matches Some(inner) ==> inner < n,
{
    if hir.nodes[n].span.from_expansion() {
        return None;
    }
    proof {
        assert(hir.node_wf(n));
    }
    match &hir.nodes[n].kind {
        Kind::Call { func, args } => {
            if args.len() != 1 {
                return None;
            }
            match &hir.nodes[*func].kind {
                Kind::Path { res: Res::Def { def, kind }, .. } => if *kind == DefKind::AssocFn
                    && hir.def_path_eq(*def, Known::AnyViewNew) {
                    Some(args[0])
                } else {
                    None
                },
                _ => None,
            }
        },
        _ => None,
    }
}

/// What `ViewExt` would mean at a node.
pub open spec fn ext_status(hir: Hir, module: Module, view_ext: Option<usize>, n: usize) -> Bare {
    imports::bare_meaning(
        hir,
        module,
        n,
        hir.node(n).span.lo,
        "ViewExt"@,
        Namespace::Type,
        view_ext,
    )
}

/// The `use` that brings the trait into scope, and where it goes.
pub open spec fn ext_import(module: Module, free: bool) -> Option<(Span, Seq<char>)> {
    match imports::insertion(module, "waterui::view::ViewExt"@) {
        Some((span, before, after)) => Some(
            (
                span,
                before + "use waterui::view::ViewExt"@ + (if free {
                    ";"@
                } else {
                    " as _;"@
                }) + after,
            ),
        ),
        None => None,
    }
}

fn import_ext(module: &Module, free: bool) -> (r: Option<(Span, String)>)
    ensures
        diagnostics::part_opt(r) == ext_import(*module, free),
{
    match imports::use_insertion(module, "waterui::view::ViewExt") {
        Some((span, before, after)) => Some(
            (
                span,
                text::cat4(
                    before.as_str(),
                    "use waterui::view::ViewExt",
                    if free {
                        ";"
                    } else {
                        " as _;"
                    },
                    after.as_str(),
                ),
            ),
        ),
        None => None,
    }
}

/// The finding without a fix.
pub open spec fn plain_report(hir: Hir, n: usize) -> DiagnosticView {
    DiagnosticView::with_help(
        Lint::AnyviewNewInFreeFn,
        hir.node(n).span,
        "`AnyView::new` in a free function; use the postfix `.anyview()`"@,
        "bring `ViewExt` into scope (`use waterui::view::ViewExt;`) to write `.anyview()`"@,
    )
}

/// The finding with a fix.
pub open spec fn fixed_report(
    hir: Hir,
    n: usize,
    parts: Seq<(Span, Seq<char>)>,
    applicability: Applicability,
) -> DiagnosticView {
    DiagnosticView::bare(
        Lint::AnyviewNewInFreeFn,
        hir.node(n).span,
        "`AnyView::new` in a free function; use the postfix `.anyview()`"@,
    ).with(
        RemarkView::Multipart {
            label: "use the postfix `.anyview()`"@,
            parts,
            applicability,
        },
    )
}

/// What is said of a call that erases `inner`.
pub open spec fn report_of(
    hir: Hir,
    module: Module,
    view_ext: Option<usize>,
    n: usize,
    inner: usize,
) -> DiagnosticView {
    let status = ext_status(hir, module, view_ext, n);
    let rewrite = (hir.node(n).span, hir.operand_or_dots(inner) + ".anyview()"@);
    let full = hir.after_sugg(inner, Applicability::MachineApplicable);
    if status == Bare::Same {
        fixed_report(hir, n, seq![rewrite], full)
    } else {
        match (view_ext, ext_import(module, status == Bare::Free)) {
            (Some(_), Some(part)) => fixed_report(
                hir,
                n,
                seq![part, rewrite],
                if status == Bare::Free {
                    full
                } else {
                    Applicability::MaybeIncorrect
                },
            ),
            _ => plain_report(hir, n),
        }
    }
}

/// What is said of an expression.
pub open spec fn finding_at(hir: Hir, module: Module, view_ext: Option<usize>, n: usize) -> Option<
    DiagnosticView,
> {
    match constructed(hir, n) {
        Some(inner) => if anyview::any_view(hir, hir.node(inner).ty) || erased_again(hir, n)
            || !within_free_fn(hir, n) {
            None
        } else {
            Some(report_of(hir, module, view_ext, n, inner))
        },
        None => None,
    }
}

/// The lint with no suggestion: `.anyview()` needs `ViewExt` in scope and the
/// trait could not be resolved or its `use` could not be placed.
fn report_help(hir: &Hir, n: usize) -> (r: Diagnostic)
    requires
        hir.has(n),
    ensures
        r@ == plain_report(*hir, n),
{
    Diagnostic::with_help(
        Lint::AnyviewNewInFreeFn,
        hir.nodes[n].span,
        "`AnyView::new` in a free function; use the postfix `.anyview()`",
        "bring `ViewExt` into scope (`use waterui::view::ViewExt;`) to write `.anyview()`".to_owned(),
    )
}

fn report(hir: &Hir, module: &Module, view_ext: Option<usize>, n: usize, inner: usize) -> (r:
    Diagnostic)
    requires
        hir.wf(),
        hir.has(n),
        hir.has(inner),
    ensures
        r@ == report_of(*hir, *module, view_ext, n, inner),
{
    let span: Span = hir.nodes[n].span;
    let status: Bare = imports::bare_status(
        hir,
        module,
        n,
        &Query { pos: span.lo, name: "ViewExt", ns: Namespace::Type, target: view_ext },
    );
    let receiver: String = hir.operand_text(inner);
    let code: String = text::cat(receiver.as_str(), ".anyview()");
    let ghost rewrite = (span, code@);
    let mut applicability: Applicability = hir.sugg_applicability(
        inner,
        Applicability::MachineApplicable,
    );
    let mut parts: Vec<(Span, String)> = Vec::new();
    proof {
        assert(diagnostics::part_views(parts@) =~= seq![]);
    }
    if status == Bare::Same {
        diagnostics::push_part(&mut parts, span, code);
        proof {
            assert(diagnostics::part_views(parts@) =~= seq![rewrite]);
        }
    } else {
        if view_ext.is_none() {
            return report_help(hir, n);
        }
        match import_ext(module, status == Bare::Free) {
            Some((at, import)) => {
                let ghost part = (at, import@);
                diagnostics::push_part(&mut parts, at, import);
                diagnostics::push_part(&mut parts, span, code);
                proof {
                    assert(diagnostics::part_views(parts@) =~= seq![part, rewrite]);
                }
            },
            None => {
                return report_help(hir, n);
            },
        }
        if status != Bare::Free {
            applicability = Applicability::MaybeIncorrect;
        }
    }
    let mut found: Diagnostic = Diagnostic::bare(
        Lint::AnyviewNewInFreeFn,
        span,
        "`AnyView::new` in a free function; use the postfix `.anyview()`",
    );
    found.multipart_suggestion("use the postfix `.anyview()`", parts, applicability);
    found
}

/// Flags `AnyView::new(v)` calls inside a free function, closures and nested `fn`
/// items inside one included, where `v` is not already an `AnyView`. `ViewExt`
/// resolving to something else, or a function-local glob that could resolve it
/// either way, gets the anonymous import: the trait's methods enter scope without
/// taking the name. `view_ext` is the trait.
pub fn check_expr(hir: &Hir, module: &Module, view_ext: Option<usize>, n: usize) -> (r: Option<
    Diagnostic,
>)
    requires
        hir.wf(),
        hir.has(n),
    ensures
        diagnostics::found(r) == finding_at(*hir, *module, view_ext, n),
{
    let inner: usize = match constructed_view(hir, n) {
        Some(inner) => inner,
        None => {
            return None;
        },
    };
    proof {
        assert(hir.node_wf(inner));
    }
    if anyview::is_anyview(hir, hir.nodes[inner].ty) || anyview_receiver(hir, n) || !in_free_fn(
        hir,
        n,
    ) {
        return None;
    }
    Some(report(hir, module, view_ext, n, inner))
}

/// `AnyView::new(x)` becomes `x.anyview()`, with `ViewExt` brought into scope
/// where the bare name does not mean it already.
pub proof fn constructor_calls_become_postfix(
    hir: Hir,
    module: Module,
    view_ext: Option<usize>,
    n: usize,
    inner: usize,
)
    ensures
        ({
            let finding = report_of(hir, module, view_ext, n, inner);
            &&& finding.span == hir.node(n).span
            &&& finding.remarks.len() == 1
            &&& finding.remarks[0] matches RemarkView::Multipart { label: _, parts, applicability: _ }
                ==> {
                &&& parts.last() == (hir.node(n).span, hir.operand_or_dots(inner) + ".anyview()"@)
                &&& ext_status(hir, module, view_ext, n) == Bare::Same <==> parts.len() == 1
                &&& parts.len() <= 2
            }
            &&& ext_status(hir, module, view_ext, n) == Bare::Same
                ==> finding.remarks[0] is Multipart
        }),
{
}

/// The nearest item around a call decides whether it stands in a free function; a
/// method of an impl or a trait is none. A call elsewhere, one of a view that is
/// erased already and one that is erased again are left alone.
pub proof fn only_free_functions_are_looked_at(
    hir: Hir,
    module: Module,
    view_ext: Option<usize>,
    n: usize,
    p: usize,
)
    requires
        hir.up(n) == Some(p),
    ensures
        hir.kind(p) is ImplItem || hir.kind(p) is TraitItem ==> finding_at(
            hir,
            module,
            view_ext,
            n,
        ) is None,
        hir.kind(p) matches Kind::Item { item, params: _, body: _ } ==> within_free_fn(hir, n) == (
        item is Fn),
        !(hir.kind(p) is Item) && !(hir.kind(p) is ImplItem) && !(hir.kind(p) is TraitItem) && !(
        hir.kind(p) is ForeignItem) ==> within_free_fn(hir, n) == within_free_fn(hir, p),
        finding_at(hir, module, view_ext, n) is Some ==> (hir.kind(n) matches Kind::Call {
            func,
            args,
        } && args@.len() == 1 && !hir.ty_is(
            hir.referent(hir.node(args@[0]).ty),
            Known::AnyView,
        ) && (hir.kind(func) matches Kind::Path { plain: _, segments: _, res: Res::Def { def, kind: _ } }
            && hir.is_def(def, Known::AnyViewNew))),
{
}

/// A construction is left alone where its value is erased already, where it is
/// erased right again, and outside of free functions; anywhere else it is reported.
pub proof fn needless_erasures_are_left_alone(
    hir: Hir,
    module: Module,
    view_ext: Option<usize>,
    n: usize,
    inner: usize,
)
    requires
        constructed(hir, n) == Some(inner),
    ensures
        finding_at(hir, module, view_ext, n) is Some <==> {
            &&& within_free_fn(hir, n)
            &&& !hir.ty_is(hir.referent(hir.node(inner).ty), Known::AnyView)
            &&& !(hir.up(n) matches Some(p) && (hir.kind(p) matches Kind::MethodCall {
                name: _,
                receiver,
                args,
            } && receiver == n && args@.len() == 0 && hir.calls_item(p, Known::AnyViewExt)))
        },
{
}

} // verus!
