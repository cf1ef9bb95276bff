//! `needless_anyview`: erasing to `AnyView` where `impl View` is already
//! accepted.

use crate::anyview;
use crate::diagnostics;
use crate::diagnostics::{Applicability, Diagnostic, DiagnosticView, RemarkView};
use crate::hir;
use crate::hir::{Bound, Hir, Kind, RetTy, Span, TyKind};
use crate::known::Known;
use crate::lint::Lint;
use vstd::prelude::*;

verus! {

pub open spec fn erasure_message() -> Seq<char> {
    "erasing to `AnyView` is unnecessary — the position already accepts `impl View`"@
}

/// Where an expression's value lands, from this lint's point of view.
#[derive(Clone, Copy, Debug, PartialEq, Eq, Structural)]
pub enum Position {
    /// The position already accepts `impl View`: a view-bounded argument slot,
    /// or return flow of a `-> impl View` body. Stripping the erasure is
    /// machine-applicable.
    ViewSlot,
    /// Return flow of a `-> AnyView` signature the lint may rewrite (free
    /// functions and inherent methods only), with the `AnyView` type's place. A
    /// strip alone would break the signature, so single erasures stay silent
    /// here; `check_fn` and the branch check emit the combined fix.
    AnyViewSig { sig: Span },
    /// `AnyView` is genuinely needed (a field, a collection element, an
    /// annotated binding, a concrete-`AnyView` parameter, an unrewritable
    /// signature) or the lint cannot tell: never report. Inside a `-> AnyView`
    /// body it also suppresses the signature message: the body demonstrably
    /// keeps an `AnyView`.
    Kept,
    /// An unannotated `let` initializer: never report, but not evidence the body
    /// needs `AnyView`.
    Transparent,
}

/// The declared return type of a function or closure, as this lint cares about
/// it.
#[derive(Clone, Copy, Debug, PartialEq, Eq, Structural)]
pub enum DeclaredRet {
    /// `-> impl ..` with a `View`/`ViewExt` bound: the position accepts any view,
    /// including the concrete one that was erased.
    ImplView,
    /// `-> AnyView`, with the `AnyView` type's place.
    AnyView(Span),
    /// Inferred or anything else.
    Other,
}

/// One of the traits is `View` or `ViewExt`.
pub open spec fn bounded_by_view(hir: Hir, bounds: Seq<usize>) -> bool {
    exists|i: int|
        0 <= i < bounds.len() && hir.def_in(
            #[trigger] bounds[i],
            seq![Known::ViewTrait, Known::ViewExtTrait],
        )
}

/// What a return type declares.
pub open spec fn ret_of(hir: Hir, ret: RetTy) -> DeclaredRet {
    match ret {
        RetTy::Opaque { bounds } => if bounded_by_view(hir, bounds@) {
            DeclaredRet::ImplView
        } else {
            DeclaredRet::Other
        },
        RetTy::Path { def, span } => if hir.is_def(def, Known::AnyView) {
            DeclaredRet::AnyView(span)
        } else {
            DeclaredRet::Other
        },
        RetTy::Other => DeclaredRet::Other,
    }
}

/// What a return type declares.
pub fn declared_ret(hir: &Hir, ret: &RetTy) -> (r: DeclaredRet)
    ensures
        r == ret_of(*hir, *ret),
{
    match ret {
        RetTy::Opaque { bounds } => {
            let mut i: usize = 0;
            while i < bounds.len()
                invariant
                    i <= bounds.len(),
                    *ret == (RetTy::Opaque { bounds: *bounds }),
                    forall|k: int|
                        0 <= k < i ==> !hir.def_in(
                            #[trigger] bounds@[k],
                            seq![Known::ViewTrait, Known::ViewExtTrait],
                        ),
                decreases bounds.len() - i,
            {
                if hir.def_path_in(bounds[i], &[Known::ViewTrait, Known::ViewExtTrait]) {
                    assert(hir.def_in(
                        bounds@[i as int],
                        seq![Known::ViewTrait, Known::ViewExtTrait],
                    ));
                    return DeclaredRet::ImplView;
                }
                i = i + 1;
            }
            DeclaredRet::Other
        },
        RetTy::Path { def, span } => if hir.def_path_eq(*def, Known::AnyView) {
            DeclaredRet::AnyView(*span)
        } else {
            DeclaredRet::Other
        },
        RetTy::Other => DeclaredRet::Other,
    }
}

/// The function, method, closure or const block whose body holds the node.
pub open spec fn body_owner(hir: Hir, n: usize) -> Option<usize>
    decreases hir.nodes@.len() - n,
{
    match hir.up(n) {
        Some(p) => match hir.kind(p) {
            Kind::Closure { .. } => Some(p),
            Kind::ConstBlock { .. } => Some(p),
            Kind::Item { .. } => Some(p),
            Kind::ImplItem { .. } => Some(p),
            Kind::TraitItem { .. } => Some(p),
            _ => body_owner(hir, p),
        },
        None => None,
    }
}

fn find_owner(hir: &Hir, n: usize) -> (r: Option<usize>)
    requires
        hir.wf(),
        hir.has(n),
    ensures
        r == body_owner(*hir, n),
        r matches Some(p) ==> hir.has(p),
    decreases hir.nodes.len() - n,
{
    match hir.parent(n) {
        Some(p) => match &hir.nodes[p].kind {
            Kind::Closure { .. } | Kind::ConstBlock { .. } | Kind::Item { .. }
            | Kind::ImplItem { .. } | Kind::TraitItem { .. } => Some(p),
            _ => find_owner(hir, p),
        },
        None => None,
    }
}

/// Some argument of the call is `n` and fills a parameter bounded by one of
/// `items`.
pub open spec fn fills_bounded(hir: Hir, call: usize, n: usize, items: Seq<Known>) -> bool {
    exists|i: int|
        0 <= i < hir.operands(call).len() && anyview::peeled(
            hir,
            #[trigger] hir.operands(call)[i],
        ) == n && hir.bounded(call, i, items)
}

/// The expression is a whole argument at a parameter bounded by one of `items`.
pub open spec fn bounded_arg(hir: Hir, n: usize, items: Seq<Known>) -> bool {
    match anyview::holder(hir, n, true) {
        Some((call, _)) => hir.is_call(call) && fills_bounded(hir, call, n, items),
        None => false,
    }
}

fn is_bounded_arg(hir: &Hir, n: usize, items: &[Known]) -> (r: bool)
    requires
        hir.wf(),
        hir.has(n),
    ensures
        r == bounded_arg(*hir, n, items@),
{
    let call: usize = match anyview::held_by(hir, n, true) {
        Some((call, _)) => call,
        None => {
            return false;
        },
    };
    if !hir.call(call) {
        return false;
    }
    let args: Vec<usize> = hir.call_args(call);
    let mut i: usize = 0;
    while i < args.len()
        invariant
            i <= args.len(),
            hir.wf(),
            hir.has(call),
            hir.is_call(call),
            args@ == hir.operands(call),
            hir::all_below(args@, call as int),
            anyview::holder(*hir, n, true) matches Some((c, _)) && c == call,
            forall|k: int|
                0 <= k < i ==> !(anyview::peeled(*hir, #[trigger] args@[k]) == n && hir.bounded(
                    call,
                    k,
                    items@,
                )),
        decreases args.len() - i,
    {
        if anyview::peel(hir, args[i]) == n && hir.arg_has_bound(call, i, items) {
            assert(anyview::peeled(*hir, hir.operands(call)[i as int]) == n);
            return true;
        }
        i = i + 1;
    }
    false
}

/// Whether the closure, a `Fn() -> V` value, is an argument to a
/// `ViewBuilder`-bounded parameter, making its return positions view slots.
pub fn closure_is_builder_arg(hir: &Hir, n: usize) -> (r: bool)
    requires
        hir.wf(),
        hir.has(n),
    ensures
        r == bounded_arg(*hir, n, seq![Known::ViewBuilder]),
{
    let r: bool = is_bounded_arg(hir, n, &[Known::ViewBuilder]);
    proof {
        let one: [Known; 1] = [Known::ViewBuilder];
        assert(one@ =~= seq![Known::ViewBuilder]);
    }
    r
}

/// Whether the array literal is itself a `TupleViews`/`Views`-bounded argument:
/// the collection sits in a view position.
pub fn views_collection_arg(hir: &Hir, n: usize) -> (r: bool)
    requires
        hir.wf(),
        hir.has(n),
    ensures
        r == bounded_arg(*hir, n, seq![Known::TupleViews, Known::Views]),
{
    is_bounded_arg(hir, n, &[Known::TupleViews, Known::Views])
}

/// The position of a value exiting the body of `owner`.
pub open spec fn exit_position(hir: Hir, owner: usize) -> Position {
    match hir.node(owner).ret {
        Some(ret) => match (ret_of(hir, ret), hir.kind(owner)) {
            (DeclaredRet::ImplView, _) => Position::ViewSlot,
            (DeclaredRet::AnyView(sig), Kind::Item { .. }) => Position::AnyViewSig { sig },
            (DeclaredRet::AnyView(sig), Kind::ImplItem { inherent, .. }) => if inherent {
                Position::AnyViewSig { sig }
            } else {
                Position::Kept
            },
            (DeclaredRet::Other, Kind::Closure { .. }) => if bounded_arg(
                hir,
                owner,
                seq![Known::ViewBuilder],
            ) {
                Position::ViewSlot
            } else {
                Position::Kept
            },
            _ => Position::Kept,
        },
        None => Position::Kept,
    }
}

/// The position of a value exiting the body that holds `n`.
pub open spec fn ret_place(hir: Hir, n: usize) -> Position {
    match body_owner(hir, n) {
        Some(owner) => exit_position(hir, owner),
        None => Position::Kept,
    }
}

/// The position of a value exiting the enclosing body: a `return`, a tail
/// expression, or a closure body's value. A trait-implementing method must keep
/// the trait's signature; a closure with an inferred return that is passed to a
/// `ViewBuilder` parameter still returns into view slots.
pub fn ret_position(hir: &Hir, n: usize) -> (r: Position)
    requires
        hir.wf(),
        hir.has(n),
    ensures
        r == ret_place(*hir, n),
{
    let owner: usize = match find_owner(hir, n) {
        Some(owner) => owner,
        None => {
            return Position::Kept;
        },
    };
    let ret: DeclaredRet = match &hir.nodes[owner].ret {
        Some(ret) => declared_ret(hir, ret),
        None => {
            return Position::Kept;
        },
    };
    match ret {
        DeclaredRet::ImplView => Position::ViewSlot,
        DeclaredRet::AnyView(sig) => match &hir.nodes[owner].kind {
            Kind::Item { .. } => Position::AnyViewSig { sig },
            Kind::ImplItem { inherent, .. } => if *inherent {
                Position::AnyViewSig { sig }
            } else {
                Position::Kept
            },
            _ => Position::Kept,
        },
        DeclaredRet::Other => match &hir.nodes[owner].kind {
            Kind::Closure { .. } => if closure_is_builder_arg(hir, owner) {
                Position::ViewSlot
            } else {
                Position::Kept
            },
            _ => Position::Kept,
        },
    }
}

/// What the expression erases, unless that is an `AnyView` already.
pub open spec fn strips_to(hir: Hir, n: usize) -> Option<usize> {
    match anyview::erased(hir, anyview::peeled(hir, n)) {
        Some(inner) => if anyview::any_view(hir, hir.node(inner).ty) {
            None
        } else {
            Some(inner)
        },
        None => None,
    }
}

/// Every expression erases a value of the same type.
pub open spec fn uniform(hir: Hir, list: Seq<usize>) -> bool {
    &&& list.len() > 0
    &&& forall|i: int| 0 <= i < list.len() ==> strips_to(hir, #[trigger] list[i]) is Some
    &&& !(hir.expr_ty(strips_to(hir, list[0])->0).kind is Error)
    &&& forall|i: int|
        0 <= i < list.len() ==> hir.node(strips_to(hir, #[trigger] list[i])->0).ty == hir.node(
            strips_to(hir, list[0])->0,
        ).ty
}

/// What the expressions erase, in order.
pub open spec fn inners(hir: Hir, list: Seq<usize>) -> Seq<usize> {
    list.map_values(|n: usize| strips_to(hir, n)->0)
}

fn stripped(hir: &Hir, n: usize) -> (r: Option<usize>)
    requires
        hir.wf(),
        hir.has(n),
    ensures
        r == strips_to(*hir, n),
        r matches Some(inner) ==> inner < n,
{
    match anyview::erased_inner(hir, anyview::peel(hir, n)) {
        Some(inner) => {
            proof {
                assert(hir.node_wf(inner));
            }
            if anyview::is_anyview(hir, hir.nodes[inner].ty) {
                None
            } else {
                Some(inner)
            }
        },
        None => None,
    }
}

/// When every expression is an erasure of the same pre-erasure type: what they
/// erase. Erasures of an `AnyView` belong to `redundant_anyview`.
pub fn uniformly_erased(hir: &Hir, list: &Vec<usize>) -> (r: Option<Vec<usize>>)
    requires
        hir.wf(),
        hir::all_below(list@, hir.nodes@.len() as int),
    ensures
        match r {
            Some(out) => uniform(*hir, list@) && out@ == inners(*hir, list@) && hir::all_below(
                out@,
                hir.nodes@.len() as int,
            ),
            None => !uniform(*hir, list@),
        },
{
    if list.len() == 0 {
        return None;
    }
    let mut out: Vec<usize> = Vec::new();
    let mut i: usize = 0;
    while i < list.len()
        invariant
            i <= list.len(),
            hir.wf(),
            hir::all_below(list@, hir.nodes@.len() as int),
            out.len() == i,
            hir::all_below(out@, hir.nodes@.len() as int),
            forall|k: int|
                0 <= k < i ==> strips_to(*hir, #[trigger] list@[k]) == Some(out@[k]),
        decreases list.len() - i,
    {
        match stripped(hir, list[i]) {
            Some(inner) => {
                out.push(inner);
            },
            None => {
                assert(strips_to(*hir, list@[i as int]) is None);
                return None;
            },
        }
        i = i + 1;
    }
    proof {
        assert(out@ =~= inners(*hir, list@));
        assert(strips_to(*hir, list@[0]) == Some(out@[0]));
        assert(hir.node_wf(out@[0]));
    }
    let ty: usize = hir.nodes[out[0]].ty;
    if let TyKind::Error = &hir.types[ty].kind {
        return None;
    }
    let mut k: usize = 0;
    while k < out.len()
        invariant
            k <= out.len(),
            list.len() == out.len(),
            0 < out.len(),
            hir::all_below(out@, hir.nodes@.len() as int),
            ty == hir.node(out@[0]).ty,
            forall|j: int|
                0 <= j < list.len() ==> strips_to(*hir, #[trigger] list@[j]) == Some(out@[j]),
            forall|j: int| 0 <= j < k ==> hir.node(#[trigger] out@[j]).ty == ty,
        decreases out.len() - k,
    {
        if hir.nodes[out[k]].ty != ty {
            assert(strips_to(*hir, list@[k as int]) == Some(out@[k as int]));
            assert(strips_to(*hir, list@[0]) == Some(out@[0]));
            return None;
        }
        k = k + 1;
    }
    proof {
        assert forall|j: int| 0 <= j < list@.len() implies hir.node(
            strips_to(*hir, #[trigger] list@[j])->0,
        ).ty == ty by {
            assert(hir.node(out@[j]).ty == ty);
        }
    }
    Some(out)
}

/// `n` is one of the list, without the blocks around it.
pub open spec fn among(hir: Hir, list: Seq<usize>, n: usize) -> bool {
    exists|i: int| 0 <= i < list.len() && anyview::peeled(hir, #[trigger] list[i]) == n
}

fn is_among(hir: &Hir, list: &Vec<usize>, n: usize) -> (r: bool)
    requires
        hir.wf(),
        hir::all_below(list@, hir.nodes@.len() as int),
    ensures
        r == among(*hir, list@, n),
{
    let mut i: usize = 0;
    while i < list.len()
        invariant
            i <= list.len(),
            hir.wf(),
            hir::all_below(list@, hir.nodes@.len() as int),
            forall|k: int| 0 <= k < i ==> anyview::peeled(*hir, #[trigger] list@[k]) != n,
        decreases list.len() - i,
    {
        if anyview::peel(hir, list[i]) == n {
            assert(anyview::peeled(*hir, list@[i as int]) == n);
            return true;
        }
        i = i + 1;
    }
    false
}

/// `n` is a view-typed position inside a `TupleViews`/`Views` argument.
pub open spec fn in_collection(hir: Hir, arg: usize, n: usize) -> bool {
    match hir.kind(arg) {
        Kind::Tup { elements } => among(hir, elements@, n),
        Kind::Array { elements } => uniform(hir, elements@) && among(hir, elements@, n),
        Kind::Repeat { element } => anyview::peeled(hir, element) == n,
        _ => false,
    }
}

/// Whether `n` is a view-typed position inside a `TupleViews`/`Views` argument:
/// a tuple element, the repeat element, or an array element when every element
/// erases the same pre-erasure type (a strip must keep the array homogeneous).
pub fn is_collection_slot(hir: &Hir, arg: usize, n: usize) -> (r: bool)
    requires
        hir.wf(),
        hir.has(arg),
    ensures
        r == in_collection(*hir, arg, n),
{
    proof {
        assert(hir.node_wf(arg));
    }
    match &hir.nodes[arg].kind {
        Kind::Tup { elements } => is_among(hir, elements, n),
        Kind::Array { elements } => uniformly_erased(hir, elements).is_some() && is_among(
            hir,
            elements,
            n,
        ),
        Kind::Repeat { element } => anyview::peel(hir, *element) == n,
        _ => false,
    }
}

/// `n` is what some `return` in the list of expressions returns.
pub open spec fn returned(hir: Hir, list: Seq<usize>, n: usize) -> bool {
    exists|i: int|
        0 <= i < list.len() && hir.kind(#[trigger] list[i]) == (Kind::Ret { value: Some(n) })
}

/// `n` is a return position of a closure.
pub open spec fn in_builder(hir: Hir, arg: usize, n: usize) -> bool {
    match hir.kind(arg) {
        Kind::Closure { params: _, body, by_move: _ } => n == body || returned(
            hir,
            hir.exprs(body, false),
            n,
        ),
        _ => false,
    }
}

/// Whether `n` is a return position of a `Fn() -> V` closure argument under a
/// `ViewBuilder` bound: its tail or an operand of one of its own `return`s.
pub fn is_builder_slot(hir: &Hir, arg: usize, n: usize) -> (r: bool)
    requires
        hir.wf(),
        hir.has(arg),
    ensures
        r == in_builder(*hir, arg, n),
{
    proof {
        assert(hir.node_wf(arg));
    }
    let body: usize = match &hir.nodes[arg].kind {
        Kind::Closure { body, .. } => *body,
        _ => {
            return false;
        },
    };
    if n == body {
        return true;
    }
    let list: Vec<usize> = hir.exprs_in(body, false);
    let mut i: usize = 0;
    while i < list.len()
        invariant
            i <= list.len(),
            hir.has(body),
            n != body,
            list@ == hir.exprs(body, false),
            hir::all_below(list@, body + 1),
            hir.kind(arg) is Closure,
            hir.kind(arg)->Closure_body == body,
            forall|k: int|
                0 <= k < i ==> hir.kind(#[trigger] list@[k]) != (Kind::Ret { value: Some(n) }),
        decreases list.len() - i,
    {
        if let Kind::Ret { value: Some(value) } = &hir.nodes[list[i]].kind {
            if *value == n {
                assert(hir.kind(list@[i as int]) == (Kind::Ret { value: Some(n) }));
                return true;
            }
        }
        i = i + 1;
    }
    false
}

/// The bound makes `n` a view position in the argument.
pub open spec fn slot_under(hir: Hir, bound: Bound, arg: usize, n: usize) -> bool {
    if hir.is_def(bound.def, Known::ViewTrait) {
        arg == n
    } else if hir.is_def(bound.def, Known::TupleViews) || hir.is_def(bound.def, Known::Views) {
        in_collection(hir, arg, n)
    } else if hir.is_def(bound.def, Known::ViewBuilder) {
        in_builder(hir, arg, n)
    } else {
        false
    }
}

fn is_slot_under(hir: &Hir, bound: Bound, arg: usize, n: usize) -> (r: bool)
    requires
        hir.wf(),
        hir.has(arg),
    ensures
        r == slot_under(*hir, bound, arg, n),
{
    if hir.def_path_eq(bound.def, Known::ViewTrait) {
        arg == n
    } else if hir.def_path_eq(bound.def, Known::TupleViews) || hir.def_path_eq(
        bound.def,
        Known::Views,
    ) {
        is_collection_slot(hir, arg, n)
    } else if hir.def_path_eq(bound.def, Known::ViewBuilder) {
        is_builder_slot(hir, arg, n)
    } else {
        false
    }
}

/// Some bound makes `n` a view position in the argument.
pub open spec fn slot_in(hir: Hir, bounds: Seq<Bound>, arg: usize, n: usize) -> bool {
    exists|k: int|
        0 <= k < bounds.len() && slot_under(
            hir,
            #[trigger] bounds[k],
            anyview::peeled(hir, arg),
            n,
        )
}

fn is_slot_in(hir: &Hir, bounds: &Vec<Bound>, arg: usize, n: usize) -> (r: bool)
    requires
        hir.wf(),
        hir.has(arg),
    ensures
        r == slot_in(*hir, bounds@, arg, n),
{
    let value: usize = anyview::peel(hir, arg);
    let mut k: usize = 0;
    while k < bounds.len()
        invariant
            k <= bounds.len(),
            hir.wf(),
            hir.has(value),
            value == anyview::peeled(*hir, arg),
            forall|j: int| 0 <= j < k ==> !slot_under(*hir, #[trigger] bounds@[j], value, n),
        decreases bounds.len() - k,
    {
        if is_slot_under(hir, bounds[k], value, n) {
            assert(slot_under(*hir, bounds@[k as int], anyview::peeled(*hir, arg), n));
            return true;
        }
        k = k + 1;
    }
    false
}

/// `n` sits in a view position among the call's arguments.
pub open spec fn view_slot(hir: Hir, call: usize, n: usize) -> bool {
    match hir.node(call).bounds {
        Some(bounds) => slot_among(hir, hir.operands(call), bounds@, n),
        None => false,
    }
}

pub open spec fn slot_among(hir: Hir, args: Seq<usize>, bounds: Seq<Vec<Bound>>, n: usize) -> bool {
    exists|i: int|
        0 <= i < args.len() && i < bounds.len() && slot_in(hir, bounds[i]@, #[trigger] args[i], n)
}

fn is_slot_among(hir: &Hir, args: &Vec<usize>, bounds: &Vec<Vec<Bound>>, n: usize) -> (r: bool)
    requires
        hir.wf(),
        hir::all_below(args@, hir.nodes@.len() as int),
    ensures
        r == slot_among(*hir, args@, bounds@, n),
{
    let mut i: usize = 0;
    while i < args.len() && i < bounds.len()
        invariant
            i <= args.len(),
            i <= bounds.len(),
            hir.wf(),
            hir::all_below(args@, hir.nodes@.len() as int),
            forall|k: int| 0 <= k < i ==> !slot_in(*hir, bounds@[k]@, #[trigger] args@[k], n),
        decreases args.len() - i,
    {
        if is_slot_in(hir, &bounds[i], args[i], n) {
            assert(slot_in(*hir, bounds@[i as int]@, args@[i as int], n));
            return true;
        }
        i = i + 1;
    }
    false
}

/// Whether `n` sits in a view position among the call's arguments: a
/// `View`-bounded argument itself, an element of a `TupleViews`/`Views`
/// argument, or a return position of a `ViewBuilder` closure argument.
pub fn in_view_slot(hir: &Hir, call: usize, n: usize) -> (r: bool)
    requires
        hir.wf(),
        hir.has(call),
    ensures
        r == view_slot(*hir, call, n),
{
    match &hir.nodes[call].bounds {
        Some(bounds) => {
            let args: Vec<usize> = hir.call_args(call);
            is_slot_among(hir, &args, bounds, n)
        },
        None => false,
    }
}

/// Where the value of `n` lands, seen from the node `at` that it has reached.
pub open spec fn landing(hir: Hir, n: usize, at: usize) -> Position
    decreases hir.nodes@.len() - at,
{
    match hir.up(at) {
        Some(p) => match hir.kind(p) {
            Kind::Ret { .. } => ret_place(hir, n),
            Kind::Closure { .. } => ret_place(hir, n),
            Kind::Become { .. } => ret_place(hir, n),
            Kind::Call { .. } => if view_slot(hir, p, n) {
                Position::ViewSlot
            } else {
                Position::Kept
            },
            Kind::MethodCall { .. } => if view_slot(hir, p, n) {
                Position::ViewSlot
            } else {
                Position::Kept
            },
            Kind::Tup { .. } => landing(hir, n, p),
            Kind::DropTemps { .. } => landing(hir, n, p),
            Kind::BlockExpr { .. } => landing(hir, n, p),
            Kind::Block { stmts: _, tail } => if tail == Some(at) {
                landing(hir, n, p)
            } else {
                Position::Kept
            },
            Kind::LetStmt { pat: _, ty, init: _, els: _ } => if ty is None {
                Position::Transparent
            } else {
                Position::Kept
            },
            Kind::Item { .. } => ret_place(hir, n),
            Kind::ImplItem { .. } => ret_place(hir, n),
            Kind::TraitItem { .. } => ret_place(hir, n),
            Kind::ForeignItem => ret_place(hir, n),
            _ => Position::Kept,
        },
        None => Position::Kept,
    }
}

fn position_from(hir: &Hir, n: usize, at: usize) -> (r: Position)
    requires
        hir.wf(),
        hir.has(n),
        hir.has(at),
    ensures
        r == landing(*hir, n, at),
    decreases hir.nodes.len() - at,
{
    let p: usize = match hir.parent(at) {
        Some(p) => p,
        None => {
            return Position::Kept;
        },
    };
    match &hir.nodes[p].kind {
        Kind::Ret { .. } | Kind::Closure { .. } | Kind::Become { .. } | Kind::Item { .. }
        | Kind::ImplItem { .. } | Kind::TraitItem { .. } | Kind::ForeignItem => ret_position(
            hir,
            n,
        ),
        Kind::Call { .. } | Kind::MethodCall { .. } => if in_view_slot(hir, p, n) {
            Position::ViewSlot
        } else {
            Position::Kept
        },
        Kind::Tup { .. } | Kind::DropTemps { .. } | Kind::BlockExpr { .. } => position_from(
            hir,
            n,
            p,
        ),
        Kind::Block { tail, .. } => {
            let own: bool = match tail {
                Some(tail) => *tail == at,
                None => false,
            };
            if own {
                position_from(hir, n, p)
            } else {
                Position::Kept
            }
        },
        Kind::LetStmt { ty, .. } => if ty.is_none() {
            Position::Transparent
        } else {
            Position::Kept
        },
        _ => Position::Kept,
    }
}

/// Where the expression's value lands: decides whether erasing to `AnyView` is
/// required by the position rather than by the expression. Tuple elements ride
/// with their container; array elements are handled by the array's own check,
/// since a strip must keep every element the same type.
pub fn position(hir: &Hir, n: usize) -> (r: Position)
    requires
        hir.wf(),
        hir.has(n),
    ensures
        r == landing(*hir, n, n),
{
    position_from(hir, n, n)
}

/// Each erasure replaced by the source of what it erases; nothing where a source
/// cannot be read.
pub open spec fn strip_parts(hir: Hir, outer: Seq<usize>, inner: Seq<usize>, n: int) -> Option<
    Seq<(Span, Seq<char>)>,
>
    decreases n,
{
    if n <= 0 {
        Some(seq![])
    } else {
        match (strip_parts(hir, outer, inner, n - 1), hir.source(inner[n - 1])) {
            (Some(parts), Some(source)) => Some(parts.push((hir.node(outer[n - 1]).span, source))),
            _ => None,
        }
    }
}

fn write_strips(hir: &Hir, outer: &Vec<usize>, inner: &Vec<usize>) -> (r: Option<
    Vec<(Span, String)>,
>)
    requires
        outer.len() == inner.len(),
        hir::all_below(outer@, hir.nodes@.len() as int),
        hir::all_below(inner@, hir.nodes@.len() as int),
    ensures
        match r {
            Some(parts) => strip_parts(*hir, outer@, inner@, outer@.len() as int) == Some(
                diagnostics::part_views(parts@),
            ),
            None => strip_parts(*hir, outer@, inner@, outer@.len() as int) is None,
        },
{
    let mut parts: Vec<(Span, String)> = Vec::new();
    let mut i: usize = 0;
    proof {
        assert(diagnostics::part_views(parts@) =~= seq![]);
    }
    while i < outer.len()
        invariant
            i <= outer.len(),
            outer.len() == inner.len(),
            hir::all_below(outer@, hir.nodes@.len() as int),
            hir::all_below(inner@, hir.nodes@.len() as int),
            strip_parts(*hir, outer@, inner@, i as int) == Some(diagnostics::part_views(parts@)),
        decreases outer.len() - i,
    {
        match hir.snippet_opt(inner[i]) {
            Some(source) => {
                let ghost before = parts@;
                parts.push((hir.nodes[outer[i]].span, source));
                proof {
                    assert(diagnostics::part_views(parts@) =~= diagnostics::part_views(
                        before,
                    ).push((hir.node(outer@[i as int]).span, source@)));
                }
            },
            None => {
                proof {
                    lemma_no_strips(*hir, outer@, inner@, i + 1, outer@.len() as int);
                }
                return None;
            },
        }
        i = i + 1;
    }
    Some(parts)
}

proof fn lemma_no_strips(hir: Hir, outer: Seq<usize>, inner: Seq<usize>, m: int, n: int)
    requires
        m <= n,
        strip_parts(hir, outer, inner, m) is None,
    ensures
        strip_parts(hir, outer, inner, n) is None,
    decreases n,
{
    if m < n {
        lemma_no_strips(hir, outer, inner, m, n - 1);
    }
}

/// What is said of branches that all erase the same type.
pub open spec fn branch_report(
    hir: Hir,
    n: usize,
    branches: Seq<usize>,
    sig: Option<Span>,
    applicability: Applicability,
) -> DiagnosticView {
    let finding = DiagnosticView::bare(
        Lint::NeedlessAnyview,
        hir.node(n).span,
        erasure_message(),
    );
    match strip_parts(hir, branches, inners(hir, branches), branches.len() as int) {
        Some(parts) => finding.with(
            match sig {
                Some(sig) => RemarkView::Multipart {
                    label: "drop the `AnyView` wrappers and return `impl View`"@,
                    parts: parts.push((sig, "impl View"@)),
                    applicability,
                },
                None => RemarkView::Multipart {
                    label: "drop the `AnyView` wrappers"@,
                    parts,
                    applicability,
                },
            },
        ),
        None => finding,
    }
}

/// One diagnostic spanning the expression, suggesting each arm's erasure be
/// stripped, plus the `-> AnyView` to `-> impl View` rewrite when `sig` is given.
pub fn report_branches(
    hir: &Hir,
    n: usize,
    branches: &Vec<usize>,
    inner: &Vec<usize>,
    sig: Option<Span>,
    applicability: Applicability,
) -> (r: Diagnostic)
    requires
        hir.has(n),
        hir::all_below(branches@, hir.nodes@.len() as int),
        hir::all_below(inner@, hir.nodes@.len() as int),
        inner@ == inners(*hir, branches@),
    ensures
        r@ == branch_report(*hir, n, branches@, sig, applicability),
{
    let mut finding: Diagnostic = Diagnostic::bare(
        Lint::NeedlessAnyview,
        hir.nodes[n].span,
        "erasing to `AnyView` is unnecessary — the position already accepts `impl View`",
    );
    if let Some(strips) = write_strips(hir, branches, inner) {
        let mut parts: Vec<(Span, String)> = strips;
        match sig {
            Some(sig) => {
                let ghost before = parts@;
                parts.push((sig, "impl View".to_owned()));
                proof {
                    assert(diagnostics::part_views(parts@) =~= diagnostics::part_views(
                        before,
                    ).push((sig, "impl View"@)));
                }
                finding.multipart_suggestion(
                    "drop the `AnyView` wrappers and return `impl View`",
                    parts,
                    applicability,
                );
            },
            None => {
                finding.multipart_suggestion("drop the `AnyView` wrappers", parts, applicability);
            },
        }
    }
    finding
}

/// What is said of the branches of a `match` or `if`.
pub open spec fn branch_finding(hir: Hir, n: usize, branches: Seq<usize>) -> Option<
    DiagnosticView,
> {
    if !uniform(hir, branches) {
        None
    } else {
        match landing(hir, n, n) {
            Position::ViewSlot => Some(
                branch_report(hir, n, branches, None, Applicability::MachineApplicable),
            ),
            Position::AnyViewSig { sig } => Some(
                branch_report(hir, n, branches, Some(sig), Applicability::MaybeIncorrect),
            ),
            _ => None,
        }
    }
}

/// The `match`/`if` rule: when every arm erases a value of the same pre-erasure
/// type, the erasure unified nothing, and one diagnostic covers every arm.
pub fn check_branches(hir: &Hir, n: usize, branches: &Vec<usize>) -> (r: Option<Diagnostic>)
    requires
        hir.wf(),
        hir.has(n),
        hir::all_below(branches@, hir.nodes@.len() as int),
    ensures
        diagnostics::found(r) == branch_finding(*hir, n, branches@),
{
    match uniformly_erased(hir, branches) {
        Some(inner) => match position(hir, n) {
            Position::ViewSlot => Some(
                report_branches(
                    hir,
                    n,
                    branches,
                    &inner,
                    None,
                    Applicability::MachineApplicable,
                ),
            ),
            Position::AnyViewSig { sig } => Some(
                report_branches(
                    hir,
                    n,
                    branches,
                    &inner,
                    Some(sig),
                    Applicability::MaybeIncorrect,
                ),
            ),
            _ => None,
        },
        None => None,
    }
}

/// The bodies of the arms.
pub open spec fn arm_bodies(hir: Hir, arms: Seq<usize>) -> Seq<usize> {
    arms.map_values(|arm: usize| arm_body(hir, arm))
}

/// The body of an arm.
pub open spec fn arm_body(hir: Hir, arm: usize) -> usize {
    match hir.kind(arm) {
        Kind::Arm { pat: _, guard: _, body } => body,
        _ => arm,
    }
}

fn bodies_of(hir: &Hir, arms: &Vec<usize>) -> (r: Vec<usize>)
    requires
        hir.wf(),
        hir::all_below(arms@, hir.nodes@.len() as int),
    ensures
        r@ == arm_bodies(*hir, arms@),
        hir::all_below(r@, hir.nodes@.len() as int),
{
    let mut out: Vec<usize> = Vec::new();
    let mut i: usize = 0;
    while i < arms.len()
        invariant
            i <= arms.len(),
            hir.wf(),
            hir::all_below(arms@, hir.nodes@.len() as int),
            out.len() == i,
            hir::all_below(out@, hir.nodes@.len() as int),
            forall|k: int| 0 <= k < i ==> out@[k] == arm_body(*hir, #[trigger] arms@[k]),
        decreases arms.len() - i,
    {
        let arm: usize = arms[i];
        proof {
            assert(hir.node_wf(arm));
        }
        match &hir.nodes[arm].kind {
            Kind::Arm { body, .. } => {
                out.push(*body);
            },
            _ => {
                out.push(arm);
            },
        }
        i = i + 1;
    }
    proof {
        assert(out@ =~= arm_bodies(*hir, arms@));
    }
    out
}

/// What is said of the branches or elements of an expression.
pub open spec fn shape_finding(hir: Hir, n: usize) -> Option<DiagnosticView> {
    match hir.kind(n) {
        Kind::Match { scrutinee: _, arms, source: _ } => branch_finding(
            hir,
            n,
            arm_bodies(hir, arms@),
        ),
        Kind::If { cond: _, then, els: Some(els) } => branch_finding(hir, n, seq![then, els]),
        Kind::Array { elements } => if uniform(hir, elements@) && bounded_arg(
            hir,
            n,
            seq![Known::TupleViews, Known::Views],
        ) {
            Some(branch_report(hir, n, elements@, None, Applicability::MachineApplicable))
        } else {
            None
        },
        _ => None,
    }
}

fn check_shape(hir: &Hir, n: usize) -> (r: Option<Diagnostic>)
    requires
        hir.wf(),
        hir.has(n),
    ensures
        diagnostics::found(r) == shape_finding(*hir, n),
{
    proof {
        assert(hir.node_wf(n));
    }
    match &hir.nodes[n].kind {
        Kind::Match { arms, .. } => {
            let bodies: Vec<usize> = bodies_of(hir, arms);
            check_branches(hir, n, &bodies)
        },
        Kind::If { then, els: Some(els), .. } => {
            let mut branches: Vec<usize> = Vec::new();
            branches.push(*then);
            branches.push(*els);
            proof {
                assert(branches@ =~= seq![*then, *els]);
            }
            check_branches(hir, n, &branches)
        },
        Kind::Array { elements } => match uniformly_erased(hir, elements) {
            Some(inner) => if views_collection_arg(hir, n) {
                Some(
                    report_branches(
                        hir,
                        n,
                        elements,
                        &inner,
                        None,
                        Applicability::MachineApplicable,
                    ),
                )
            } else {
                None
            },
            None => None,
        },
        _ => None,
    }
}

/// What is said of a single erasure in a view slot.
pub open spec fn strip_finding(hir: Hir, n: usize) -> Option<DiagnosticView> {
    match anyview::erased(hir, n) {
        Some(inner) => if anyview::any_view(hir, hir.node(inner).ty) || landing(hir, n, n)
            != Position::ViewSlot {
            None
        } else {
            Some(
                match hir.source(inner) {
                    Some(source) => DiagnosticView::with_sugg(
                        Lint::NeedlessAnyview,
                        hir.node(n).span,
                        erasure_message(),
                        "drop the `AnyView` wrapper"@,
                        source,
                        Applicability::MachineApplicable,
                    ),
                    None => DiagnosticView::with_help(
                        Lint::NeedlessAnyview,
                        hir.node(n).span,
                        erasure_message(),
                        "drop the `AnyView` wrapper"@,
                    ),
                },
            )
        },
        None => None,
    }
}

fn check_strip(hir: &Hir, n: usize) -> (r: Option<Diagnostic>)
    requires
        hir.wf(),
        hir.has(n),
    ensures
        diagnostics::found(r) == strip_finding(*hir, n),
{
    let inner: usize = match anyview::erased_inner(hir, n) {
        Some(inner) => inner,
        None => {
            return None;
        },
    };
    proof {
        assert(hir.node_wf(inner));
    }
    if anyview::is_anyview(hir, hir.nodes[inner].ty) || position(hir, n) != Position::ViewSlot {
        return None;
    }
    let span: Span = hir.nodes[n].span;
    let message: &str =
        "erasing to `AnyView` is unnecessary — the position already accepts `impl View`";
    Some(
        match hir.snippet_opt(inner) {
            Some(source) => Diagnostic::with_sugg(
                Lint::NeedlessAnyview,
                span,
                message,
                "drop the `AnyView` wrapper",
                source,
                Applicability::MachineApplicable,
            ),
            None => Diagnostic::with_help(
                Lint::NeedlessAnyview,
                span,
                message,
                "drop the `AnyView` wrapper".to_owned(),
            ),
        },
    )
}

/// What is said of an expression.
pub open spec fn findings(hir: Hir, n: usize) -> Seq<DiagnosticView> {
    if hir.node(n).span.expanded() {
        seq![]
    } else {
        listed(shape_finding(hir, n)) + listed(strip_finding(hir, n))
    }
}

/// A finding as a list.
pub open spec fn listed(finding: Option<DiagnosticView>) -> Seq<DiagnosticView> {
    match finding {
        Some(finding) => seq![finding],
        None => seq![],
    }
}

/// Flags `AnyView::new(v)` and `v.anyview()` calls that type-erase a view where
/// the surrounding position already accepts `impl View`.
pub fn check_expr(hir: &Hir, n: usize) -> (r: Vec<Diagnostic>)
    requires
        hir.wf(),
        hir.has(n),
    ensures
        diagnostics::found_all(r@) == findings(*hir, n),
{
    let mut out: Vec<Diagnostic> = Vec::new();
    if !hir.nodes[n].span.from_expansion() {
        if let Some(finding) = check_shape(hir, n) {
            out.push(finding);
        }
        if let Some(finding) = check_strip(hir, n) {
            out.push(finding);
        }
    }
    proof {
        assert(diagnostics::found_all(out@) =~= findings(*hir, n));
    }
    out
}

/// The expression keeps the signature honest: it branches, or an `AnyView` in it
/// flows into a field, collection, annotation or concrete-`AnyView` parameter.
pub open spec fn keeps_anyview(hir: Hir, n: usize) -> bool {
    ||| (hir.kind(n) is Match || hir.kind(n) is If) && !hir.node(n).span.expanded()
    ||| anyview::erased(hir, n) is Some && landing(hir, n, n) == Position::Kept
}

/// The expression is a return-flow erasure that the signature rewrite strips.
pub open spec fn strips_with_sig(hir: Hir, n: usize) -> bool {
    anyview::erased(hir, n) matches Some(inner) && landing(hir, n, n) is AnyViewSig
        && !anyview::any_view(hir, hir.node(inner).ty)
}

/// The return-flow erasures among the first `n` expressions, with what they
/// erase.
pub open spec fn sig_strips(hir: Hir, list: Seq<usize>, n: int) -> (Seq<usize>, Seq<usize>)
    decreases n,
{
    if n <= 0 {
        (seq![], seq![])
    } else {
        let (outer, inner) = sig_strips(hir, list, n - 1);
        if strips_with_sig(hir, list[n - 1]) {
            (outer.push(list[n - 1]), inner.push(anyview::erased(hir, list[n - 1])->0))
        } else {
            (outer, inner)
        }
    }
}

/// Some expression keeps the signature honest.
pub open spec fn any_keeps(hir: Hir, list: Seq<usize>) -> bool {
    exists|i: int| 0 <= i < list.len() && keeps_anyview(hir, #[trigger] list[i])
}

fn scan_body(hir: &Hir, body: usize) -> (r: Option<(Vec<usize>, Vec<usize>)>)
    requires
        hir.wf(),
        hir.has(body),
    ensures
        match r {
            Some((outer, inner)) => {
                &&& !any_keeps(*hir, hir.exprs(body, true))
                &&& (outer@, inner@) == sig_strips(
                    *hir,
                    hir.exprs(body, true),
                    hir.exprs(body, true).len() as int,
                )
                &&& outer.len() == inner.len()
                &&& hir::all_below(outer@, hir.nodes@.len() as int)
                &&& hir::all_below(inner@, hir.nodes@.len() as int)
            },
            None => any_keeps(*hir, hir.exprs(body, true)),
        },
{
    let list: Vec<usize> = hir.exprs_in(body, true);
    let mut outer: Vec<usize> = Vec::new();
    let mut inner: Vec<usize> = Vec::new();
    let mut i: usize = 0;
    while i < list.len()
        invariant
            i <= list.len(),
            hir.wf(),
            hir.has(body),
            list@ == hir.exprs(body, true),
            hir::all_below(list@, body + 1),
            forall|k: int| 0 <= k < i ==> !keeps_anyview(*hir, #[trigger] list@[k]),
            (outer@, inner@) == sig_strips(*hir, list@, i as int),
            outer.len() == inner.len(),
            hir::all_below(outer@, hir.nodes@.len() as int),
            hir::all_below(inner@, hir.nodes@.len() as int),
        decreases list.len() - i,
    {
        let n: usize = list[i];
        let branches: bool = match &hir.nodes[n].kind {
            Kind::Match { .. } | Kind::If { .. } => !hir.nodes[n].span.from_expansion(),
            _ => false,
        };
        if branches {
            assert(keeps_anyview(*hir, list@[i as int]));
            return None;
        }
        if let Some(value) = anyview::erased_inner(hir, n) {
            proof {
                assert(hir.node_wf(value));
            }
            match position(hir, n) {
                Position::AnyViewSig { .. } => {
                    if !anyview::is_anyview(hir, hir.nodes[value].ty) {
                        outer.push(n);
                        inner.push(value);
                    }
                },
                Position::Kept => {
                    assert(keeps_anyview(*hir, list@[i as int]));
                    return None;
                },
                _ => {},
            }
        }
        i = i + 1;
    }
    Some((outer, inner))
}

/// The function may change its signature, and its body.
pub open spec fn rewritable_body(hir: Hir, n: usize) -> Option<usize> {
    match hir.kind(n) {
        Kind::Item { item: _, params: _, body } => body,
        Kind::ImplItem { inherent, params: _, body } => if inherent {
            body
        } else {
            None
        },
        _ => None,
    }
}

/// What is said of a function's signature.
pub open spec fn fn_finding(hir: Hir, n: usize) -> Option<DiagnosticView> {
    match (hir.node(n).ret, rewritable_body(hir, n)) {
        (Some(ret), Some(body)) => match ret_of(hir, ret) {
            DeclaredRet::AnyView(sig) => {
                let list = hir.exprs(body, true);
                let (outer, inner) = sig_strips(hir, list, list.len() as int);
                let finding = DiagnosticView::bare(
                    Lint::NeedlessAnyview,
                    sig,
                    "the return type can be `impl View`"@,
                );
                if sig.expanded() || hir.node(body).span.expanded() || any_keeps(hir, list) {
                    None
                } else {
                    Some(
                        match strip_parts(hir, outer, inner, outer.len() as int) {
                            Some(parts) => finding.with(
                                RemarkView::Multipart {
                                    label: "return `impl View` and drop the `AnyView` wrappers"@,
                                    parts: parts.push((sig, "impl View"@)),
                                    applicability: Applicability::MaybeIncorrect,
                                },
                            ),
                            None => finding,
                        },
                    )
                }
            },
            _ => None,
        },
        _ => None,
    }
}

/// Flags a `-> AnyView` signature whose body neither branches nor keeps an
/// `AnyView` anywhere else. Only free functions and inherent methods may change
/// their signature: trait-declared and trait-implementing signatures are fixed,
/// and closures have no signature to rewrite.
pub fn check_fn(hir: &Hir, n: usize) -> (r: Option<Diagnostic>)
    requires
        hir.wf(),
        hir.has(n),
    ensures
        diagnostics::found(r) == fn_finding(*hir, n),
{
    proof {
        assert(hir.node_wf(n));
    }
    let sig: Span = match &hir.nodes[n].ret {
        Some(ret) => match declared_ret(hir, ret) {
            DeclaredRet::AnyView(sig) => sig,
            _ => {
                return None;
            },
        },
        None => {
            return None;
        },
    };
    let body: usize = match &hir.nodes[n].kind {
        Kind::Item { body: Some(body), .. } => *body,
        Kind::ImplItem { inherent, body: Some(body), .. } => if *inherent {
            *body
        } else {
            return None;
        },
        _ => {
            return None;
        },
    };
    if sig.from_expansion() || hir.nodes[body].span.from_expansion() {
        return None;
    }
    let (outer, inner) = match scan_body(hir, body) {
        Some(found) => found,
        None => {
            return None;
        },
    };
    let mut finding: Diagnostic = Diagnostic::bare(
        Lint::NeedlessAnyview,
        sig,
        "the return type can be `impl View`",
    );
    if let Some(strips) = write_strips(hir, &outer, &inner) {
        let mut parts: Vec<(Span, String)> = strips;
        let ghost before = parts@;
        parts.push((sig, "impl View".to_owned()));
        proof {
            assert(diagnostics::part_views(parts@) =~= diagnostics::part_views(before).push(
                (sig, "impl View"@),
            ));
        }
        finding.multipart_suggestion(
            "return `impl View` and drop the `AnyView` wrappers",
            parts,
            Applicability::MaybeIncorrect,
        );
    }
    Some(finding)
}

/// The expression erases `inner`: it is `AnyView::new(inner)` or
/// `inner.anyview()`, and `inner` is no `AnyView` already.
pub open spec fn erases_view(hir: Hir, n: usize, inner: usize) -> bool {
    &&& hir.calls(n, seq![Known::AnyViewNew, Known::AnyViewExt])
    &&& match hir.kind(n) {
        Kind::Call { func: _, args } => args@.len() == 1 && args@[0] == inner,
        Kind::MethodCall { name: _, receiver, args } => args@.len() == 0 && receiver == inner,
        _ => false,
    }
    &&& !hir.ty_is(hir.referent(hir.node(inner).ty), Known::AnyView)
}

/// An erasure that is dropped leaves the very view that it erased, and it is
/// dropped only where its place accepts any view.
pub proof fn dropped_erasures_leave_their_view(hir: Hir, n: usize) -> (inner: usize)
    requires
        strip_finding(hir, n) is Some,
    ensures
        erases_view(hir, n, inner),
        landing(hir, n, n) == Position::ViewSlot,
        ({
            let finding = strip_finding(hir, n)->0;
            &&& finding.span == hir.node(n).span
            &&& finding.remarks.len() == 1
            &&& match hir.source(inner) {
                Some(source) => finding.remarks[0] matches RemarkView::Suggestion {
                    label: _,
                    span,
                    code,
                    applicability: _,
                } && span == hir.node(n).span && code == source,
                None => finding.remarks[0] is Help,
            }
        }),
{
    anyview::erased(hir, n)->0
}

proof fn lemma_strip_parts(hir: Hir, outer: Seq<usize>, inner: Seq<usize>, n: int, k: int)
    requires
        0 <= k < n,
    ensures
        strip_parts(hir, outer, inner, n) matches Some(parts) ==> parts.len() == n && (hir.source(
            inner[k],
        ) matches Some(source) && parts[k] == (hir.node(outer[k]).span, source)),
    decreases n,
{
    if n > 1 {
        if k < n - 1 {
            lemma_strip_parts(hir, outer, inner, n - 1, k);
        } else {
            lemma_strip_parts(hir, outer, inner, n - 1, 0);
        }
    } else {
        assert(strip_parts(hir, outer, inner, 0) == Some(Seq::<(Span, Seq<char>)>::empty()));
    }
}

/// Where the branches of a choice all erase, each branch is left with the view
/// that it erased itself, and all those views have one type; a signature that
/// named `AnyView` then returns `impl View`.
pub proof fn branches_keep_their_own_view(hir: Hir, n: usize, branches: Seq<usize>, k: int) -> (inner:
    usize)
    requires
        branch_finding(hir, n, branches) is Some,
        0 <= k < branches.len(),
    ensures
        erases_view(hir, anyview::peeled(hir, branches[k]), inner),
        hir.node(inner).ty == hir.node(strips_to(hir, branches[0])->0).ty,
        ({
            let finding = branch_finding(hir, n, branches)->0;
            finding.remarks.len() > 0 ==> {
                &&& finding.remarks[0] matches RemarkView::Multipart {
                    label: _,
                    parts,
                    applicability: _,
                }
                &&& hir.source(inner) matches Some(source)
                &&& parts[k] == (hir.node(branches[k]).span, source)
                &&& landing(hir, n, n) matches Position::AnyViewSig { sig } ==> parts.len()
                    == branches.len() + 1 && parts.last() == (sig, "impl View"@)
                &&& landing(hir, n, n) == Position::ViewSlot ==> parts.len() == branches.len()
            }
        }),
{
    assert(strips_to(hir, branches[k]) is Some);
    assert(hir.node(strips_to(hir, branches[k])->0).ty == hir.node(
        strips_to(hir, branches[0])->0,
    ).ty);
    lemma_strip_parts(hir, branches, inners(hir, branches), branches.len() as int, k);
    let inner = strips_to(hir, branches[k])->0;
    assert(inners(hir, branches)[k] == inner);
    inner
}

/// The signature of a method that a trait fixes is never rewritten: nothing is
/// said of its return type, and what it returns keeps its erasure.
pub proof fn trait_methods_keep_their_signature(hir: Hir, n: usize)
    requires
        hir.kind(n) matches Kind::ImplItem { inherent, params: _, body: _ } && !inherent,
    ensures
        fn_finding(hir, n) is None,
        (hir.node(n).ret matches Some(RetTy::Path { def, span: _ }) && hir.is_def(
            def,
            Known::AnyView,
        )) ==> exit_position(hir, n) == Position::Kept,
{
}

/// Where a function declares `impl View`, what it returns needs no erasure; where
/// it declares `AnyView` and may change, the signature is what stands in the way.
pub proof fn declared_returns_decide(hir: Hir, n: usize, bounds: Vec<usize>, i: int, sig: Span, def: usize)
    ensures
        hir.node(n).ret == Some(RetTy::Opaque { bounds }) && 0 <= i < bounds@.len() && hir.def_in(
            bounds@[i],
            seq![Known::ViewTrait, Known::ViewExtTrait],
        ) ==> exit_position(hir, n) == Position::ViewSlot,
        hir.node(n).ret == Some(RetTy::Path { def, span: sig }) && hir.is_def(def, Known::AnyView)
            && hir.kind(n) is Item ==> exit_position(hir, n) == (Position::AnyViewSig { sig }),
{
}

/// The place that a view-bounded parameter gives to a view is the argument itself;
/// a bound over several views gives one to each element of a tuple.
pub proof fn bounded_arguments_are_view_slots(
    hir: Hir,
    call: usize,
    n: usize,
    i: int,
    k: int,
    bounds: Vec<Vec<Bound>>,
)
    requires
        hir.node(call).bounds == Some(bounds),
        0 <= i < hir.operands(call).len(),
        i < bounds@.len(),
        0 <= k < bounds@[i]@.len(),
    ensures
        hir.is_def(bounds@[i]@[k].def, Known::ViewTrait) && anyview::peeled(
            hir,
            hir.operands(call)[i],
        ) == n ==> view_slot(hir, call, n),
        !hir.is_def(bounds@[i]@[k].def, Known::ViewTrait) && hir.is_def(
            bounds@[i]@[k].def,
            Known::TupleViews,
        ) ==> (hir.kind(anyview::peeled(hir, hir.operands(call)[i])) matches Kind::Tup { elements }
            ==> (forall|e: int|
            0 <= e < elements@.len() && anyview::peeled(hir, #[trigger] elements@[e]) == n
                ==> view_slot(hir, call, n))),
{
    let arg = hir.operands(call)[i];
    if slot_under(hir, bounds@[i]@[k], anyview::peeled(hir, arg), n) {
        assert(slot_in(hir, bounds@[i]@, arg, n));
        assert(view_slot(hir, call, n));
    }
    if !hir.is_def(bounds@[i]@[k].def, Known::ViewTrait) && hir.is_def(
        bounds@[i]@[k].def,
        Known::TupleViews,
    ) {
        if let Kind::Tup { elements } = hir.kind(anyview::peeled(hir, arg)) {
            assert forall|e: int|
                0 <= e < elements@.len() && anyview::peeled(hir, #[trigger] elements@[e])
                    == n implies view_slot(hir, call, n) by {
                assert(among(hir, elements@, n));
                assert(slot_under(hir, bounds@[i]@[k], anyview::peeled(hir, arg), n));
                assert(slot_in(hir, bounds@[i]@, arg, n));
            }
        }
    }
}

/// A call without any view bound gives no such place, and what it takes keeps its
/// erasure.
pub proof fn unbounded_arguments_keep_their_erasure(hir: Hir, n: usize, call: usize)
    requires
        hir.up(n) == Some(call),
        hir.is_call(call),
        hir.node(call).bounds matches Some(bounds) ==> forall|i: int, k: int|
            0 <= i < bounds@.len() && 0 <= k < bounds@[i]@.len() ==> !hir.is_def(
                (#[trigger] bounds@[i]@[k]).def,
                Known::ViewTrait,
            ) && !hir.is_def(bounds@[i]@[k].def, Known::TupleViews) && !hir.is_def(
                bounds@[i]@[k].def,
                Known::Views,
            ) && !hir.is_def(bounds@[i]@[k].def, Known::ViewBuilder),
    ensures
        strip_finding(hir, n) is None,
{
    if view_slot(hir, call, n) {
        let bounds = hir.node(call).bounds->0;
        let args = hir.operands(call);
        let i = choose|i: int|
            0 <= i < args.len() && i < bounds@.len() && slot_in(
                hir,
                bounds@[i]@,
                #[trigger] args[i],
                n,
            );
        let k = choose|k: int|
            0 <= k < bounds@[i]@.len() && slot_under(
                hir,
                #[trigger] bounds@[i]@[k],
                anyview::peeled(hir, args[i]),
                n,
            );
        assert(!hir.is_def(bounds@[i]@[k].def, Known::ViewTrait));
    }
}

} // verus!
