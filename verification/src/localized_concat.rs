//! `localized_concat`: a `+` that appends to a localized `Text` builds a sentence
//! no translation catalog can reorder.

use crate::diagnostics;
use crate::diagnostics::{Diagnostic, DiagnosticView};
use crate::hir::{BinOp, Hir, Kind, TyKind};
use crate::known::Known;
use crate::lint::Lint;
use vstd::prelude::*;

verus! {

/// `Text` constructors that always produce localized text.
pub open spec fn localized_ctors() -> Seq<Known> {
    seq![Known::TextLocalized, Known::TextLocalizedOr, Known::LocalizedWith]
}

/// Calls that carry their input's provenance: clones of a `Text`, and the entry
/// points whose `&'static str` input goes through the catalog while `String` and
/// `Str` stay verbatim.
pub open spec fn forwarding() -> Seq<Known> {
    seq![
        Known::Clone,
        Known::ToOwned,
        Known::Into,
        Known::TextFn,
        Known::TextNew,
        Known::IntoTextFn,
    ]
}

/// The left operand of a text concatenation.
pub open spec fn text_lhs(hir: Hir, n: usize) -> Option<usize> {
    match hir.kind(n) {
        Kind::Binary { op, lhs, rhs: _ } => if op == BinOp::Add && hir.ty_is(
            hir.node(n).ty,
            Known::Text,
        ) {
            Some(lhs)
        } else {
            None
        },
        _ => None,
    }
}

/// The left operand, when the expression is a `+` typed to `Text`: a text
/// concatenation.
pub fn text_add(hir: &Hir, n: usize) -> (r: Option<usize>)
    requires
        hir.wf(),
        hir.has(n),
    ensures
        r == text_lhs(*hir, n),
        r matches Some(lhs) ==> lhs < n,
{
    proof {
        assert(hir.node_wf(n));
    }
    match &hir.nodes[n].kind {
        Kind::Binary { op, lhs, .. } => if *op == BinOp::Add && hir.is_adt(
            hir.nodes[n].ty,
            Known::Text,
        ) {
            Some(*lhs)
        } else {
            None
        },
        _ => None,
    }
}

/// The expression is a string slice, references aside.
pub open spec fn string_slice(hir: Hir, n: usize) -> bool {
    hir.ty(hir.referent(hir.node(n).ty)).kind is Str
}

fn is_string_slice(hir: &Hir, n: usize) -> (r: bool)
    requires
        hir.wf(),
        hir.has(n),
    ensures
        r == string_slice(*hir, n),
{
    proof {
        assert(hir.node_wf(n));
    }
    let t: usize = hir.peel_refs(hir.nodes[n].ty);
    match &hir.types[t].kind {
        TyKind::Str => true,
        _ => false,
    }
}

/// The expression is localized text.
pub open spec fn localized(hir: Hir, arg: usize) -> bool
    decreases arg,
{
    let n = hir.undropped(arg);
    match (hir.node(n).mac, text_lhs(hir, n), hir.kind(n)) {
        (Some(mac), _, _) => mac.is_text,
        (None, Some(lhs), _) => lhs < arg && localized(hir, lhs),
        (None, None, Kind::BlockExpr { block }) => match hir.block_tail(block) {
            Some(tail) => tail < arg && localized(hir, tail),
            None => false,
        },
        _ => if hir.resolves(n, localized_ctors()) {
            true
        } else if hir.resolves(n, forwarding()) {
            match hir.first_operand(n) {
                Some(input) => string_slice(hir, input) || (input < arg && localized(hir, input)),
                None => false,
            }
        } else {
            false
        },
    }
}

/// Whether the left operand of a `Text` concat is localized text: a `text!(..)`
/// expansion, a `Text::localized*` call, or a forwarding call or wrapper whose own
/// input is. The outermost macro producing the expression decides: another macro's
/// output is not the author's fragment. Nested `+`s descend the left spine, so a
/// chain is decided by its leftmost leaf. A string slice resolves through the
/// catalog; anything else is verbatim unless it is itself localized `Text`.
pub fn localized_operand(hir: &Hir, arg: usize) -> (r: bool)
    requires
        hir.wf(),
        hir.has(arg),
    ensures
        r == localized(*hir, arg),
    decreases arg,
{
    let n: usize = hir.peel_drop_temps(arg);
    proof {
        assert(hir.node_wf(n));
    }
    if let Some(mac) = hir.nodes[n].mac {
        return mac.is_text;
    }
    if let Some(lhs) = text_add(hir, n) {
        return localized_operand(hir, lhs);
    }
    if let Kind::BlockExpr { block } = &hir.nodes[n].kind {
        proof {
            assert(hir.node_wf(*block));
        }
        return match &hir.nodes[*block].kind {
            Kind::Block { tail: Some(tail), .. } => localized_operand(hir, *tail),
            _ => false,
        };
    }
    if hir.resolves_to(n, &[Known::TextLocalized, Known::TextLocalizedOr, Known::LocalizedWith]) {
        return true;
    }
    let calls = [
        Known::Clone,
        Known::ToOwned,
        Known::Into,
        Known::TextFn,
        Known::TextNew,
        Known::IntoTextFn,
    ];
    proof {
        assert(calls@ =~= forwarding());
    }
    if !hir.resolves_to(n, &calls) {
        return false;
    }
    match hir.first_arg(n) {
        Some(input) => is_string_slice(hir, input) || localized_operand(hir, input),
        None => false,
    }
}

/// The expression around `n`, drop-temps aside.
pub open spec fn outer_expr(hir: Hir, n: usize) -> Option<usize>
    decreases hir.nodes@.len() - n,
{
    match hir.up(n) {
        Some(p) => if hir.kind(p) is DropTemps {
            outer_expr(hir, p)
        } else if hir.kind(p).is_expr() {
            Some(p)
        } else {
            None
        },
        None => None,
    }
}

fn enclosing_expr(hir: &Hir, n: usize) -> (r: Option<usize>)
    requires
        hir.wf(),
        hir.has(n),
    ensures
        r == outer_expr(*hir, n),
        r matches Some(p) ==> hir.has(p),
    decreases hir.nodes.len() - n,
{
    let p: usize = match hir.parent(n) {
        Some(p) => p,
        None => {
            return None;
        },
    };
    match &hir.nodes[p].kind {
        Kind::DropTemps { .. } => enclosing_expr(hir, p),
        _ => if hir.nodes[p].kind.expr() {
            Some(p)
        } else {
            None
        },
    }
}

/// The `+` is part of a longer chain.
pub open spec fn in_chain(hir: Hir, n: usize) -> bool {
    match outer_expr(hir, n) {
        Some(p) => text_lhs(hir, p) is Some,
        None => false,
    }
}

/// What is said of an expression.
pub open spec fn finding_at(hir: Hir, n: usize) -> Option<DiagnosticView> {
    match text_lhs(hir, n) {
        Some(lhs) => if !in_chain(hir, n) && localized(hir, lhs) {
            Some(
                DiagnosticView::with_help(
                    Lint::LocalizedConcat,
                    hir.node(n).span,
                    "concatenating localized text builds an untranslatable sentence"@,
                    "word order differs by language; make it one `text!` key with slots \u{2014} `text!(\"Dear {name}\", name = ..)`"@,
                ),
            )
        } else {
            None
        },
        None => None,
    }
}

/// A chain reports once, at its outermost `+`: nothing is said of a `+` that is an
/// operand of another.
pub proof fn inner_concats_stay_silent(hir: Hir, outer: usize, inner: usize)
    requires
        text_lhs(hir, outer) is Some,
        outer_expr(hir, inner) == Some(outer),
    ensures
        finding_at(hir, inner) is None,
{
}

/// Flags `+` concatenation producing `Text` whose left operand is localized text,
/// in any position. A chain reports once, at its outermost `+`.
pub fn check_expr(hir: &Hir, n: usize) -> (r: Option<Diagnostic>)
    requires
        hir.wf(),
        hir.has(n),
    ensures
        diagnostics::found(r) == finding_at(*hir, n),
{
    let lhs: usize = match text_add(hir, n) {
        Some(lhs) => lhs,
        None => {
            return None;
        },
    };
    if let Some(p) = enclosing_expr(hir, n) {
        if text_add(hir, p).is_some() {
            return None;
        }
    }
    if !localized_operand(hir, lhs) {
        return None;
    }
    Some(
        Diagnostic::with_help(
            Lint::LocalizedConcat,
            hir.nodes[n].span,
            "concatenating localized text builds an untranslatable sentence",
            "word order differs by language; make it one `text!` key with slots \u{2014} `text!(\"Dear {name}\", name = ..)`".to_owned(),
        ),
    )
}

/// A sum of texts is localized where its left side is, and a `text!` is; what is
/// passed on by a conversion stays what it was. An outermost such sum is
/// reported.
pub proof fn localized_sums_are_reported(hir: Hir, n: usize, lhs: usize, rhs: usize)
    requires
        hir.kind(n) == (Kind::Binary { op: BinOp::Add, lhs, rhs }),
        hir.ty_is(hir.node(n).ty, Known::Text),
    ensures
        !in_chain(hir, n) ==> (finding_at(hir, n) is Some <==> localized(hir, lhs)),
        hir.node(n).mac is None && lhs < n ==> localized(hir, n) == localized(hir, lhs),
        (hir.node(hir.undropped(lhs)).mac matches Some(mac) && mac.is_text) && !in_chain(hir, n)
            ==> finding_at(hir, n) is Some,
{
}

/// What `text(..)`, a clone or a conversion carries on is localized where it was;
/// a string slice goes through the catalog, so what it becomes is localized.
pub proof fn forwarded_text_stays_localized(hir: Hir, n: usize, input: usize)
    requires
        !(hir.kind(n) is DropTemps),
        hir.undropped(n) == n,
        hir.node(n).mac is None,
        text_lhs(hir, n) is None,
        !(hir.kind(n) is BlockExpr),
        !hir.resolves(n, localized_ctors()),
        hir.resolves(n, forwarding()),
        hir.first_operand(n) == Some(input),
        input < n,
    ensures
        localized(hir, n) <==> localized(hir, input) || hir.ty(
            hir.referent(hir.node(input).ty),
        ).kind is Str,
{
}

} // verus!
