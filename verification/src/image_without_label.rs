//! `image_without_label`: a `Photo`, `Image` or `Svg` whose modifier chain carries
//! no `.a11y_label(..)` and no `.a11y_hidden(true)` enters the accessibility tree
//! unannounced.

use crate::diagnostics;
use crate::diagnostics::{Diagnostic, DiagnosticView};
use crate::hir;
use crate::hir::{Hir, Kind, Lit};
use crate::known::Known;
use crate::lint::Lint;
use crate::list_in_scroll;
use vstd::prelude::*;

verus! {

/// The image views with no label parameter at construction.
pub open spec fn image_types() -> Seq<Known> {
    seq![Known::Photo, Known::Image, Known::Svg]
}

/// The expression is an image.
pub open spec fn image(hir: Hir, n: usize) -> bool {
    list_in_scroll::typed(hir, n, image_types())
}

fn is_image(hir: &Hir, n: usize) -> (r: bool)
    requires
        hir.wf(),
        hir.has(n),
    ensures
        r == image(*hir, n),
{
    list_in_scroll::is_ty(hir, n, &[Known::Photo, Known::Image, Known::Svg])
}

/// The call names the image, or hides it.
pub open spec fn labels(hir: Hir, n: usize) -> bool {
    ||| hir.resolves_item(n, Known::A11yLabel)
    ||| hir.resolves_item(n, Known::A11yHidden) && match hir.kind(n) {
        Kind::MethodCall { name: _, receiver: _, args } => args@.len() == 1 && match hir.kind(
            args@[0],
        ) {
            Kind::Lit { lit: Lit::Bool(flag) } => flag,
            _ => false,
        },
        _ => false,
    }
}

/// Whether the call is of `ViewExt::a11y_label`, or of `ViewExt::a11y_hidden` with
/// the literal `true`: `false` keeps the image visible to assistive technology
/// without naming it.
pub fn is_label_call(hir: &Hir, n: usize) -> (r: bool)
    requires
        hir.wf(),
        hir.has(n),
    ensures
        r == labels(*hir, n),
{
    if hir.resolves_of(n, Known::A11yLabel) {
        return true;
    }
    if !hir.resolves_of(n, Known::A11yHidden) {
        return false;
    }
    proof {
        assert(hir.node_wf(n));
    }
    match &hir.nodes[n].kind {
        Kind::MethodCall { args, .. } => {
            if args.len() != 1 {
                return false;
            }
            match &hir.nodes[args[0]].kind {
                Kind::Lit { lit: Lit::Bool(flag) } => *flag,
                _ => false,
            }
        },
        _ => false,
    }
}

/// The node is another call that makes an image.
pub open spec fn nested_image(hir: Hir, n: usize, e: usize) -> bool {
    e != n && hir.kind(e) is Call && image(hir, e)
}

/// The expression wraps another image construction.
pub open spec fn wraps_image(hir: Hir, n: usize) -> bool {
    exists|i: int|
        0 <= i < hir.exprs(n, false).len() && nested_image(
            hir,
            n,
            #[trigger] hir.exprs(n, false)[i],
        )
}

/// Whether the expression wraps a nested image construction: `f(photo(..))`
/// returning an image. The nested call is itself a candidate; reporting the
/// wrapper too would count one construction twice.
pub fn contains_image_call(hir: &Hir, n: usize) -> (r: bool)
    requires
        hir.wf(),
        hir.has(n),
    ensures
        r == wraps_image(*hir, n),
{
    let list: Vec<usize> = hir.exprs_in(n, false);
    let mut i: usize = 0;
    while i < list.len()
        invariant
            i <= list.len(),
            hir.wf(),
            hir.has(n),
            list@ == hir.exprs(n, false),
            hir::all_below(list@, n + 1),
            forall|k: int| 0 <= k < i ==> !nested_image(*hir, n, #[trigger] list@[k]),
        decreases list.len() - i,
    {
        let e: usize = list[i];
        let call: bool = match &hir.nodes[e].kind {
            Kind::Call { .. } => true,
            _ => false,
        };
        if e != n && call && is_image(hir, e) {
            assert(nested_image(*hir, n, hir.exprs(n, false)[i as int]));
            return true;
        }
        i = i + 1;
    }
    false
}

/// The method call made on `n`.
pub open spec fn modifier_on(hir: Hir, n: usize) -> Option<usize> {
    match hir.up(n) {
        Some(p) => match hir.kind(p) {
            Kind::MethodCall { name: _, receiver, args: _ } => if receiver == n {
                Some(p)
            } else {
                None
            },
            _ => None,
        },
        None => None,
    }
}

/// The end of the modifier chain on `n`.
pub open spec fn chain_end(hir: Hir, n: usize) -> usize
    decreases hir.nodes@.len() - n,
{
    match modifier_on(hir, n) {
        Some(p) => chain_end(hir, p),
        None => n,
    }
}

/// Some modifier of the chain on `n` labels it.
pub open spec fn chain_labels(hir: Hir, n: usize) -> bool
    decreases hir.nodes@.len() - n,
{
    match modifier_on(hir, n) {
        Some(p) => labels(hir, p) || chain_labels(hir, p),
        None => false,
    }
}

/// The chain is the modifier calls written on the image: outward while the parent
/// is a method call whose receiver is the current expression. Gives its end, and
/// whether a call in it labels the image.
fn walk_chain(hir: &Hir, n: usize) -> (r: (usize, bool))
    requires
        hir.wf(),
        hir.has(n),
    ensures
        r.0 == chain_end(*hir, n),
        r.1 == chain_labels(*hir, n),
        hir.has(r.0),
    decreases hir.nodes.len() - n,
{
    let p: usize = match hir.parent(n) {
        Some(p) => p,
        None => {
            return (n, false);
        },
    };
    let on: bool = match &hir.nodes[p].kind {
        Kind::MethodCall { receiver, .. } => *receiver == n,
        _ => false,
    };
    if !on {
        return (n, false);
    }
    let (top, labelled) = walk_chain(hir, p);
    (top, is_label_call(hir, p) || labelled)
}

/// A `let` binds the value to a name.
pub open spec fn let_bound(hir: Hir, n: usize) -> bool {
    match hir.up(n) {
        Some(p) => match hir.kind(p) {
            Kind::LetStmt { pat, ty: _, init, els: _ } => init == Some(n) && !(hir.kind(
                pat,
            ) is Wild),
            _ => false,
        },
        None => false,
    }
}

/// Whether the expression's value is bound to a name by a `let`: the visible chain
/// ends there, but the binding can be labelled in a later statement, which is out
/// of scope. `let _ =` binds no name and still reports.
pub fn bound_to_a_name(hir: &Hir, n: usize) -> (r: bool)
    requires
        hir.wf(),
        hir.has(n),
    ensures
        r == let_bound(*hir, n),
{
    match hir.parent(n) {
        Some(p) => {
            proof {
                assert(hir.node_wf(p));
            }
            match &hir.nodes[p].kind {
                Kind::LetStmt { pat, init, .. } => {
                    let own: bool = match init {
                        Some(init) => *init == n,
                        None => false,
                    };
                    let wild: bool = match &hir.nodes[*pat].kind {
                        Kind::Wild => true,
                        _ => false,
                    };
                    own && !wild
                },
                _ => false,
            }
        },
        None => false,
    }
}

/// What is said of an expression.
pub open spec fn finding_at(hir: Hir, n: usize) -> Option<DiagnosticView> {
    let top = chain_end(hir, n);
    if hir.node(n).span.expanded() || !(hir.kind(n) is Call) || !image(hir, n) || wraps_image(
        hir,
        n,
    ) || chain_labels(hir, n) || let_bound(hir, top) {
        None
    } else {
        Some(
            DiagnosticView::with_help(
                Lint::ImageWithoutLabel,
                hir.node(top).span,
                "this image has no accessibility label"@,
                "add `.a11y_label(..)` naming what the image shows, or `.a11y_hidden(true)` when it is decorative; a label set by an ancestor is the case to `#[allow]`"@,
            ),
        )
    }
}

/// Flags a `Photo`, `Image`, or `Svg` construction whose modifier chain carries
/// neither `.a11y_label(..)` nor `.a11y_hidden(true)`. A candidate is a
/// construction, a call whose result is an image; a path read or a method call on
/// an existing value is a use.
pub fn check_expr(hir: &Hir, n: usize) -> (r: Option<Diagnostic>)
    requires
        hir.wf(),
        hir.has(n),
    ensures
        diagnostics::found(r) == finding_at(*hir, n),
{
    if hir.nodes[n].span.from_expansion() {
        return None;
    }
    match &hir.nodes[n].kind {
        Kind::Call { .. } => {},
        _ => {
            return None;
        },
    }
    if !is_image(hir, n) || contains_image_call(hir, n) {
        return None;
    }
    let (top, labelled) = walk_chain(hir, n);
    if labelled || bound_to_a_name(hir, top) {
        return None;
    }
    Some(
        Diagnostic::with_help(
            Lint::ImageWithoutLabel,
            hir.nodes[top].span,
            "this image has no accessibility label",
            "add `.a11y_label(..)` naming what the image shows, or `.a11y_hidden(true)` when it is decorative; a label set by an ancestor is the case to `#[allow]`".to_owned(),
        ),
    )
}

/// An image with a label is not reported: neither one that a modifier labels nor
/// one that a modifier hides for good; and a label further up the chain counts
/// as one right at the image.
pub proof fn labelled_images_are_silent(hir: Hir, n: usize, p: usize)
    requires
        hir.up(n) == Some(p),
        hir.kind(p) matches Kind::MethodCall { name: _, receiver, args: _ } && receiver == n,
    ensures
        hir.resolves_item(p, Known::A11yLabel) ==> finding_at(hir, n) is None,
        (hir.kind(p) matches Kind::MethodCall { name: _, receiver: _, args } && args@.len() == 1
            && hir.kind(args@[0]) == (Kind::Lit { lit: Lit::Bool(true) })) && hir.resolves_item(
            p,
            Known::A11yHidden,
        ) ==> finding_at(hir, n) is None,
        chain_labels(hir, p) ==> finding_at(hir, n) is None,
        chain_end(hir, n) == chain_end(hir, p),
        !chain_labels(hir, p) && !hir.resolves_item(p, Known::A11yLabel) && !hir.resolves_item(
            p,
            Known::A11yHidden,
        ) ==> !chain_labels(hir, n),
        !chain_labels(hir, p) && !hir.resolves_item(p, Known::A11yLabel) && (hir.kind(
            p,
        ) matches Kind::MethodCall { name: _, receiver: _, args } && args@.len() == 1 && hir.kind(
            args@[0],
        ) == (Kind::Lit { lit: Lit::Bool(false) })) ==> !chain_labels(hir, n),
{
}

/// An image that no modifier stands on and that no `let` keeps for later is
/// reported.
pub proof fn bare_images_are_reported(hir: Hir, n: usize)
    requires
        hir.kind(n) is Call,
        !hir.node(n).span.expanded(),
        list_in_scroll::typed(hir, n, seq![Known::Photo, Known::Image, Known::Svg]),
        !wraps_image(hir, n),
        hir.up(n) matches Some(p) ==> !(hir.kind(p) is MethodCall) && !(hir.kind(p) is LetStmt),
    ensures
        finding_at(hir, n) matches Some(finding) && finding.span == hir.node(n).span,
{
}

} // verus!
