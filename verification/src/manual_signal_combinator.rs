//! `manual_signal_combinator`: `signal.map(|v| !v)`-style closures that restate
//! a named `SignalExt` combinator.

use crate::diagnostics;
use crate::diagnostics::{Applicability, Diagnostic, DiagnosticView};
use crate::hir;
use crate::hir::{BinOp, Capture, DefKind, Hir, Kind, Lit, Res, Trait, TyKind, UnOp};
use crate::known::Known;
use crate::lint::Lint;
use crate::signal_map;
use crate::text;
use vstd::prelude::*;

verus! {

/// A rewrite the lint offers for the `map` call.
#[derive(Debug)]
pub enum Rewrite {
    /// `<receiver>.<name>(<args..>)`, with `.not()` chained when `not` is set:
    /// `v != e` is `.equal_to(e).not()`.
    Named { name: &'static str, args: Vec<usize>, not: bool },
    /// `|v| v` or `|v| v.clone()`: the map is a no-op and goes away.
    Identity,
    /// `|v| v.into()`, `Into::into(v)`, `From::from(v)`, `U::from(v)` become
    /// `.map_into()`.
    MapInto,
}

/// What a rewrite is.
pub ghost enum RewriteView {
    Named { name: Seq<char>, args: Seq<usize>, not: bool },
    Identity,
    MapInto,
}

impl View for Rewrite {
    type V = RewriteView;

    open spec fn view(&self) -> RewriteView {
        match *self {
            Rewrite::Named { name, args, not } => RewriteView::Named { name: name@, args: args@, not },
            Rewrite::Identity => RewriteView::Identity,
            Rewrite::MapInto => RewriteView::MapInto,
        }
    }
}

pub open spec fn rewrite_opt(rewrite: Option<Rewrite>) -> Option<RewriteView> {
    match rewrite {
        Some(rewrite) => Some(rewrite@),
        None => None,
    }
}

/// A combinator without operands.
pub open spec fn bare(name: Seq<char>) -> Option<RewriteView> {
    Some(RewriteView::Named { name, args: seq![], not: false })
}

/// A combinator with one operand.
pub open spec fn over(name: Seq<char>, arg: usize) -> Option<RewriteView> {
    Some(RewriteView::Named { name, args: seq![arg], not: false })
}

/// A combinator with one operand, where the condition holds.
pub open spec fn over_if(holds: bool, name: Seq<char>, arg: usize) -> Option<RewriteView> {
    if holds {
        over(name, arg)
    } else {
        None
    }
}

/// A combinator without operands, where the condition holds.
pub open spec fn bare_if(holds: bool, name: Seq<char>) -> Option<RewriteView> {
    if holds {
        bare(name)
    } else {
        None
    }
}

impl Rewrite {
    pub fn named(name: &'static str) -> (r: Rewrite)
        ensures
            Some(r@) == bare(name@),
    {
        let r: Rewrite = Rewrite::Named { name, args: Vec::new(), not: false };
        proof {
            assert(r@->args =~= seq![]);
        }
        r
    }

    pub fn args(name: &'static str, arg: usize) -> (r: Rewrite)
        ensures
            Some(r@) == over(name@, arg),
    {
        let mut args: Vec<usize> = Vec::new();
        args.push(arg);
        proof {
            assert(args@ =~= seq![arg]);
        }
        Rewrite::Named { name, args, not: false }
    }
}

/// The expression is a bare read of the closure's parameter.
pub open spec fn reads(hir: Hir, n: usize, param: usize) -> bool {
    hir.local(n) == Some(param)
}

/// `expr` is a bare read of the local `param`, the closure's parameter.
pub fn is_param(hir: &Hir, n: usize, param: usize) -> (r: bool)
    requires
        hir.has(n),
    ensures
        r == reads(*hir, n, param),
{
    hir.res_local(n) == Some(param)
}

/// The expression never reads `param`, nested closures included.
pub open spec fn free_of(hir: Hir, n: usize, param: usize) -> bool {
    forall|i: int|
        0 <= i < hir.exprs(n, true).len() ==> !reads(hir, #[trigger] hir.exprs(n, true)[i], param)
}

/// `expr` never reads `param`, nested closures included: a value the fix moves
/// outside the closure cannot depend on its binding.
pub fn free_of_param(hir: &Hir, n: usize, param: usize) -> (r: bool)
    requires
        hir.wf(),
        hir.has(n),
    ensures
        r == free_of(*hir, n, param),
{
    let list: Vec<usize> = hir.exprs_in(n, true);
    let mut i: usize = 0;
    while i < list.len()
        invariant
            i <= list.len(),
            hir.has(n),
            list@ == hir.exprs(n, true),
            hir::all_below(list@, n + 1),
            forall|k: int| 0 <= k < i ==> !reads(*hir, #[trigger] list@[k], param),
        decreases list.len() - i,
    {
        if is_param(hir, list[i], param) {
            assert(reads(*hir, list@[i as int], param));
            return false;
        }
        i = i + 1;
    }
    true
}

/// The same type modulo arguments.
pub open spec fn nominally_same(hir: Hir, a: usize, b: usize) -> bool {
    match (hir.adt(a), hir.adt(b)) {
        (Some((x, _)), Some((y, _))) => x == y,
        _ => a == b,
    }
}

/// `a` and `b` are the same type modulo arguments: the impl's self type has its
/// parameters unsubstituted, so a concrete `Option<i32>` output compares equal
/// to the impl's `Option<T>`.
pub fn same_nominal(hir: &Hir, a: usize, b: usize) -> (r: bool)
    requires
        a < hir.types.len(),
        b < hir.types.len(),
    ensures
        r == nominally_same(*hir, a, b),
{
    match (&hir.types[a].kind, &hir.types[b].kind) {
        (TyKind::Adt { def: x, .. }, TyKind::Adt { def: y, .. }) => *x == *y,
        _ => a == b,
    }
}

/// A numeric primitive.
pub open spec fn numeric(hir: Hir, t: usize) -> bool {
    hir.ty(t).kind is Int || hir.ty(t).kind is Uint || hir.ty(t).kind is Float
}

/// A signed numeric primitive: `i8..i128`, `isize`, `f32`, `f64`.
pub open spec fn signed(hir: Hir, t: usize) -> bool {
    match hir.ty(t).kind {
        TyKind::Int { .. } => true,
        TyKind::Float { bits } => bits == 32 || bits == 64,
        _ => false,
    }
}

/// `ty` is a numeric primitive: what `is_zero` accepts.
pub fn is_numeric(hir: &Hir, t: usize) -> (r: bool)
    requires
        t < hir.types.len(),
    ensures
        r == numeric(*hir, t),
{
    match &hir.types[t].kind {
        TyKind::Int { .. } | TyKind::Uint { .. } | TyKind::Float { .. } => true,
        _ => false,
    }
}

/// `ty` is a signed numeric primitive: what `negate`, `abs`, `is_positive` and
/// `is_negative` accept.
pub fn is_signed(hir: &Hir, t: usize) -> (r: bool)
    requires
        t < hir.types.len(),
    ensures
        r == signed(*hir, t),
{
    match &hir.types[t].kind {
        TyKind::Int { .. } => true,
        TyKind::Float { bits } => *bits == 32 || *bits == 64,
        _ => false,
    }
}

/// The literal `0` or `0.0`.
pub open spec fn is_zero(hir: Hir, n: usize) -> bool {
    match hir.kind(n) {
        Kind::Lit { lit: Lit::Int { value, suffixed: _ } } => value == 0,
        Kind::Lit { lit: Lit::Float { digits: _, zero, suffixed: _ } } => zero,
        _ => false,
    }
}

/// `expr` is the literal `0` or `0.0`: the comparison operand that `is_zero`,
/// `is_positive` and `is_negative` restate.
pub fn zero_literal(hir: &Hir, n: usize) -> (r: bool)
    requires
        hir.has(n),
    ensures
        r == is_zero(*hir, n),
{
    match &hir.nodes[n].kind {
        Kind::Lit { lit: Lit::Int { value, .. } } => *value == 0,
        Kind::Lit { lit: Lit::Float { zero, .. } } => *zero,
        _ => false,
    }
}

/// A string literal, or an expression of type `&str` or `String`.
pub open spec fn text_pattern(hir: Hir, n: usize) -> bool {
    (hir.kind(n) matches Kind::Lit { lit: Lit::Str(_) }) || match hir.expr_ty(n).kind {
        TyKind::Ref { inner, .. } => hir.ty(inner).kind is Str,
        TyKind::Adt { def, args: _ } => hir.is_def(def, Known::StringTy),
        _ => false,
    }
}

/// `e` is a `&str`-typed expression (a string literal lands here too) or a
/// `String`: the `str_contains(pattern: impl Into<String>)` argument.
pub fn string_pattern(hir: &Hir, n: usize) -> (r: bool)
    requires
        hir.wf(),
        hir.has(n),
    ensures
        r == text_pattern(*hir, n),
{
    proof {
        assert(hir.node_wf(n));
        assert(hir.types@[hir.node(n).ty as int].below(hir.node(n).ty as int));
    }
    if let Kind::Lit { lit: Lit::Str(_) } = &hir.nodes[n].kind {
        return true;
    }
    match &hir.type_of(n).kind {
        TyKind::Ref { inner, .. } => match &hir.types[*inner].kind {
            TyKind::Str => true,
            _ => false,
        },
        TyKind::Adt { def, .. } => hir.def_path_eq(*def, Known::StringTy),
        _ => false,
    }
}

/// The type is `Clone` with no inference or generic parameters left.
pub open spec fn concrete_clone(hir: Hir, t: usize) -> bool {
    !hir.ty(t).has_infer && !hir.ty(t).has_param && hir.ty(t).implements(Trait::Clone, seq![])
}

/// `ty` is `Clone` with no inference or generic parameters left: the combinator
/// stores and clones it.
pub fn cloneable_concrete(hir: &Hir, t: usize) -> (r: bool)
    requires
        t < hir.types.len(),
    ensures
        r == concrete_clone(*hir, t),
{
    !hir.types[t].has_infer && !hir.types[t].has_param && hir.types[t].implements_trait(
        Trait::Clone,
    )
}

/// The type may be stored in a combinator and replayed: `Clone + 'static`. A
/// literal's type is `'static` by construction.
pub open spec fn storable(hir: Hir, t: usize, is_literal: bool) -> bool {
    concrete_clone(hir, t) && (is_literal || hir.ty(t).is_static)
}

/// `ty` may be stored in a combinator and replayed, with no inference or
/// generic parameters left.
pub fn stored_ty(hir: &Hir, t: usize, is_literal: bool) -> (r: bool)
    requires
        t < hir.types.len(),
    ensures
        r == storable(*hir, t, is_literal),
{
    cloneable_concrete(hir, t) && (is_literal || hir.types[t].is_static)
}

/// A literal or a path that never reads `param`, of a type that can be stored.
pub open spec fn stores(hir: Hir, n: usize, param: usize) -> bool {
    &&& hir.kind(n) is Lit || hir.kind(n) is Path
    &&& free_of(hir, n, param)
    &&& storable(hir, hir.node(n).ty, hir.kind(n) is Lit)
}

/// An operand a combinator stores and evaluates once at construction, instead
/// of per `map` call, must be a literal or a path that never reads `param`, of
/// a type that can be stored.
pub fn stored_operand(hir: &Hir, n: usize, param: usize) -> (r: bool)
    requires
        hir.wf(),
        hir.has(n),
    ensures
        r == stores(*hir, n, param),
{
    proof {
        assert(hir.node_wf(n));
    }
    let is_literal: bool = match &hir.nodes[n].kind {
        Kind::Lit { .. } => true,
        Kind::Path { .. } => false,
        _ => {
            return false;
        },
    };
    free_of_param(hir, n, param) && stored_ty(hir, hir.nodes[n].ty, is_literal)
}

/// A captured value that a stored `Fn` closure may keep: moved in, and `Copy`,
/// so that the body cannot move it back out.
pub open spec fn keepable(hir: Hir, capture: Capture, by_move: bool) -> bool {
    &&& capture.by_value
    &&& by_move
    &&& hir.ty(capture.ty).implements(Trait::Copy, seq![])
    &&& storable(hir, capture.ty, false)
}

fn all_keepable(hir: &Hir, captures: &Vec<Capture>, by_move: bool) -> (r: bool)
    requires
        hir::captures_below(captures@, hir.types@.len() as int),
    ensures
        r == (forall|i: int|
            0 <= i < captures@.len() ==> keepable(*hir, #[trigger] captures@[i], by_move)),
{
    let mut i: usize = 0;
    while i < captures.len()
        invariant
            i <= captures.len(),
            hir::captures_below(captures@, hir.types@.len() as int),
            forall|k: int| 0 <= k < i ==> keepable(*hir, #[trigger] captures@[k], by_move),
        decreases captures.len() - i,
    {
        let capture: Capture = captures[i];
        if !(capture.by_value && by_move && hir.types[capture.ty].implements_trait(Trait::Copy)
            && stored_ty(hir, capture.ty, false)) {
            assert(!keepable(*hir, captures@[i as int], by_move));
            return false;
        }
        i = i + 1;
    }
    true
}

/// `f` can move into a combinator as the stored callable on these inputs.
pub open spec fn movable(hir: Hir, f: usize, param: usize, inputs: Seq<usize>) -> bool {
    let f = hir.undropped(f);
    let ty = hir.expr_ty(f);
    free_of(hir, f, param) && match hir.kind(f) {
        Kind::Closure { params: _, body: _, by_move } => match ty.kind {
            TyKind::Closure { inputs: taken } => {
                &&& taken@ == inputs
                &&& forall|i: int|
                    0 <= i < hir.node(f).captures@.len() ==> keepable(
                        hir,
                        #[trigger] hir.node(f).captures@[i],
                        by_move,
                    )
                &&& ty.implements(Trait::Clone, seq![])
            },
            _ => false,
        },
        Kind::Path { .. } => {
            &&& !ty.has_infer
            &&& !ty.has_param
            &&& ty.is_static
            &&& ty.implements(Trait::Clone, seq![])
            &&& ty.implements(Trait::Fn, inputs)
        },
        _ => false,
    }
}

/// `f` moves into the combinator as the stored callable: the bound on it is
/// `'static + Clone + Fn(inputs)`. A closure literal or a path qualifies: a
/// closure's captures must each move a `Clone + 'static` value in (a reference
/// borrows the frame, which is never `'static`), and the callable's own type
/// must satisfy the trait bounds.
pub fn movable_fn(hir: &Hir, f: usize, param: usize, inputs: &Vec<usize>) -> (r: bool)
    requires
        hir.wf(),
        hir.has(f),
    ensures
        r == movable(*hir, f, param, inputs@),
{
    let f: usize = hir.peel_drop_temps(f);
    if !free_of_param(hir, f, param) {
        return false;
    }
    proof {
        assert(hir.node_wf(f));
    }
    match &hir.nodes[f].kind {
        Kind::Closure { by_move, .. } => {
            let same = match &hir.type_of(f).kind {
                TyKind::Closure { inputs: taken } => crate::ty::same_ids(taken, inputs),
                _ => false,
            };
            if !same {
                return false;
            }
            all_keepable(hir, &hir.nodes[f].captures, *by_move) && hir.type_of(f).implements_trait(
                Trait::Clone,
            )
        },
        Kind::Path { .. } => {
            let ty = hir.type_of(f);
            !ty.has_infer && !ty.has_param && ty.is_static && ty.implements_trait(Trait::Clone)
                && ty.implements_with(Trait::Fn, inputs)
        },
        _ => false,
    }
}

/// The path constructs `item`.
pub open spec fn constructs(hir: Hir, n: usize, item: Known) -> bool {
    match hir.kind(n) {
        Kind::Path { plain: _, segments: _, res: Res::Def { def, kind } } => kind is Ctor
            && hir.is_def(hir.target(def), item),
        _ => false,
    }
}

/// Whether the path constructs `item`.
pub fn is_ctor(hir: &Hir, n: usize, item: Known) -> (r: bool)
    requires
        hir.has(n),
    ensures
        r == constructs(*hir, n, item),
{
    match &hir.nodes[n].kind {
        Kind::Path { res: Res::Def { def, kind }, .. } => *kind == DefKind::Ctor
            && hir.def_path_eq(hir.target_did(*def), item),
        _ => false,
    }
}

/// What `Some(..)` wraps, where the expression is that.
pub open spec fn some_of(hir: Hir, n: usize) -> Option<usize> {
    match hir.kind(n) {
        Kind::Call { func, args } => if args@.len() == 1 && constructs(
            hir,
            func,
            Known::OptionSome,
        ) {
            Some(args@[0])
        } else {
            None
        },
        _ => None,
    }
}

/// `expr` is `Some(inner)`, an `Option::Some` constructor call.
pub fn some_arg(hir: &Hir, n: usize) -> (r: Option<usize>)
    requires
        hir.wf(),
        hir.has(n),
    ensures
        r == some_of(*hir, n),
        r matches Some(a) ==> a < n,
{
    proof {
        assert(hir.node_wf(n));
    }
    match &hir.nodes[n].kind {
        Kind::Call { func, args } => if args.len() == 1 && is_ctor(hir, *func, Known::OptionSome) {
            Some(args[0])
        } else {
            None
        },
        _ => None,
    }
}

/// `expr` is `None`.
pub fn none_expr(hir: &Hir, n: usize) -> (r: bool)
    requires
        hir.has(n),
    ensures
        r == constructs(*hir, n, Known::OptionNone),
{
    is_ctor(hir, n, Known::OptionNone)
}

/// The combinator that the comparison `v <op> rhs` spells.
pub open spec fn binary_rewrite(
    hir: Hir,
    op: BinOp,
    rhs: usize,
    param: usize,
    output: usize,
) -> Option<RewriteView> {
    let option = hir.ty_is(output, Known::OptionTy);
    let keeps = stores(hir, rhs, param);
    match op {
        BinOp::Eq => if is_zero(hir, rhs) && numeric(hir, output) {
            bare("is_zero"@)
        } else if option && constructs(hir, rhs, Known::OptionNone) {
            bare("is_none"@)
        } else if option && some_of(hir, rhs) is Some {
            over_if(stores(hir, some_of(hir, rhs)->0, param), "some_equal_to"@, some_of(hir, rhs)->0)
        } else {
            over_if(keeps, "equal_to"@, rhs)
        },
        BinOp::Ne => if option && constructs(hir, rhs, Known::OptionNone) {
            bare("is_some"@)
        } else if keeps {
            Some(RewriteView::Named { name: "equal_to"@, args: seq![rhs], not: true })
        } else {
            None
        },
        BinOp::Gt => if signed(hir, output) && is_zero(hir, rhs) {
            bare("is_positive"@)
        } else {
            over_if(keeps, "gt"@, rhs)
        },
        BinOp::Lt => if signed(hir, output) && is_zero(hir, rhs) {
            bare("is_negative"@)
        } else {
            over_if(keeps, "lt"@, rhs)
        },
        BinOp::Ge => over_if(keeps, "ge"@, rhs),
        BinOp::Le => over_if(keeps, "le"@, rhs),
        _ => None,
    }
}

/// `name` over the operand, where it can be stored.
fn stored_rewrite(hir: &Hir, name: &'static str, arg: usize, param: usize) -> (r: Option<Rewrite>)
    requires
        hir.wf(),
        hir.has(arg),
    ensures
        rewrite_opt(r) == over_if(stores(*hir, arg, param), name@, arg),
{
    if stored_operand(hir, arg, param) {
        Some(Rewrite::args(name, arg))
    } else {
        None
    }
}

/// The combinator `v <op> e` spells: `equal_to`/`gt`/`lt`/`ge`/`le`, the
/// `v != e` negation, and the zero and signed shortcuts `is_zero`,
/// `is_positive`, `is_negative`. The comparison operand is stored and evaluated
/// once at construction, so it must be one that can be stored. A `Some(_)` that
/// cannot be stored stays silent rather than degrade to `equal_to(Some(..))`.
pub fn binary_combinator(hir: &Hir, op: BinOp, rhs: usize, param: usize, output: usize) -> (r: Option<
    Rewrite,
>)
    requires
        hir.wf(),
        hir.has(rhs),
        output < hir.types.len(),
    ensures
        rewrite_opt(r) == binary_rewrite(*hir, op, rhs, param, output),
{
    match op {
        BinOp::Eq => {
            if zero_literal(hir, rhs) && is_numeric(hir, output) {
                return Some(Rewrite::named("is_zero"));
            }
            if hir.is_adt(output, Known::OptionTy) {
                if none_expr(hir, rhs) {
                    return Some(Rewrite::named("is_none"));
                }
                if let Some(inner) = some_arg(hir, rhs) {
                    return stored_rewrite(hir, "some_equal_to", inner, param);
                }
            }
            stored_rewrite(hir, "equal_to", rhs, param)
        },
        BinOp::Ne => {
            if hir.is_adt(output, Known::OptionTy) && none_expr(hir, rhs) {
                return Some(Rewrite::named("is_some"));
            }
            if stored_operand(hir, rhs, param) {
                let mut args: Vec<usize> = Vec::new();
                args.push(rhs);
                proof {
                    assert(args@ =~= seq![rhs]);
                }
                Some(Rewrite::Named { name: "equal_to", args, not: true })
            } else {
                None
            }
        },
        BinOp::Gt => if is_signed(hir, output) && zero_literal(hir, rhs) {
            Some(Rewrite::named("is_positive"))
        } else {
            stored_rewrite(hir, "gt", rhs, param)
        },
        BinOp::Lt => if is_signed(hir, output) && zero_literal(hir, rhs) {
            Some(Rewrite::named("is_negative"))
        } else {
            stored_rewrite(hir, "lt", rhs, param)
        },
        BinOp::Ge => stored_rewrite(hir, "ge", rhs, param),
        BinOp::Le => stored_rewrite(hir, "le", rhs, param),
        _ => None,
    }
}

/// The combinator that `if v { then } else { els }` spells on a `bool` output.
pub open spec fn if_rewrite(hir: Hir, then: usize, els: usize, param: usize) -> Option<RewriteView> {
    let a = hir.evaluated(then);
    let b = hir.evaluated(els);
    if some_of(hir, a) is Some && constructs(hir, b, Known::OptionNone) && stores(
        hir,
        some_of(hir, a)->0,
        param,
    ) {
        over("then_some"@, some_of(hir, a)->0)
    } else if stores(hir, a, param) && stores(hir, b, param) {
        Some(RewriteView::Named { name: "select"@, args: seq![a, b], not: false })
    } else {
        None
    }
}

/// The combinator `if v { then } else { els }` spells on a `bool` output:
/// `then_some(a)` for `Some(a)`/`None` arms, `select(a, b)` otherwise. Both
/// combinators evaluate their operands eagerly, so the same stored-operand
/// rules apply.
pub fn if_combinator(hir: &Hir, then: usize, els: usize, param: usize) -> (r: Option<Rewrite>)
    requires
        hir.wf(),
        hir.has(then),
        hir.has(els),
    ensures
        rewrite_opt(r) == if_rewrite(*hir, then, els, param),
{
    let then: usize = hir.body_expr(then);
    let els: usize = hir.body_expr(els);
    if let Some(a) = some_arg(hir, then) {
        if none_expr(hir, els) && stored_operand(hir, a, param) {
            return Some(Rewrite::args("then_some", a));
        }
    }
    if stored_operand(hir, then, param) && stored_operand(hir, els, param) {
        let mut args: Vec<usize> = Vec::new();
        args.push(then);
        args.push(els);
        proof {
            assert(args@ =~= seq![then, els]);
        }
        Some(Rewrite::Named { name: "select", args, not: false })
    } else {
        None
    }
}

/// The expression without drop-temps and borrows around it.
pub open spec fn unborrowed(hir: Hir, n: usize) -> usize
    decreases n,
{
    match hir.kind(n) {
        Kind::DropTemps { inner } => if inner < n {
            unborrowed(hir, inner)
        } else {
            n
        },
        Kind::AddrOf { mutable: _, raw: _, operand } => if operand < n {
            unborrowed(hir, operand)
        } else {
            n
        },
        _ => n,
    }
}

/// The expression without drop-temps and borrows around it.
pub fn peel_borrows(hir: &Hir, n: usize) -> (r: usize)
    requires
        hir.wf(),
        hir.has(n),
    ensures
        r == unborrowed(*hir, n),
        r <= n,
    decreases n,
{
    proof {
        assert(hir.node_wf(n));
    }
    match &hir.nodes[n].kind {
        Kind::DropTemps { inner } => peel_borrows(hir, *inner),
        Kind::AddrOf { operand, .. } => peel_borrows(hir, *operand),
        _ => n,
    }
}

/// The combinator that a free-function call spells.
pub open spec fn call_rewrite(hir: Hir, n: usize, param: usize) -> Option<RewriteView> {
    match hir.kind(n) {
        Kind::Call { func: _, args } => if args@.len() != 1 {
            None
        } else if hir.resolves(n, seq![Known::Into, Known::From]) {
            if reads(hir, args@[0], param) {
                Some(RewriteView::MapInto)
            } else {
                None
            }
        } else if hir.resolves_item(n, Known::Clone) && reads(
            hir,
            unborrowed(hir, args@[0]),
            param,
        ) {
            Some(RewriteView::Identity)
        } else {
            None
        },
        _ => None,
    }
}

/// The combinator `body` spells as a free-function call: `Into::into(v)`,
/// `From::from(v)`, `U::from(v)` are `.map_into()`; `Clone::clone(&v)`, whose
/// argument carries the borrow, is the needless map.
pub fn call_combinator(hir: &Hir, n: usize, param: usize) -> (r: Option<Rewrite>)
    requires
        hir.wf(),
        hir.has(n),
    ensures
        rewrite_opt(r) == call_rewrite(*hir, n, param),
{
    proof {
        assert(hir.node_wf(n));
    }
    match &hir.nodes[n].kind {
        Kind::Call { args, .. } => {
            if args.len() != 1 {
                return None;
            }
            let arg: usize = args[0];
            if hir.resolves_to(n, &[Known::Into, Known::From]) {
                return if is_param(hir, arg, param) {
                    Some(Rewrite::MapInto)
                } else {
                    None
                };
            }
            if hir.resolves_of(n, Known::Clone) && is_param(hir, peel_borrows(hir, arg), param) {
                Some(Rewrite::Identity)
            } else {
                None
            }
        },
        _ => None,
    }
}

/// Both types are `item`.
pub open spec fn both(hir: Hir, a: usize, b: usize, item: Known) -> bool {
    hir.ty_is(a, item) && hir.ty_is(b, item)
}

fn is_both(hir: &Hir, a: usize, b: usize, item: Known) -> (r: bool)
    requires
        a < hir.types.len(),
        b < hir.types.len(),
    ensures
        r == both(*hir, a, b, item),
{
    hir.is_adt(a, item) && hir.is_adt(b, item)
}

/// The combinator that a method without arguments spells: `own` is the type
/// whose method it is, `output` that of the signal.
pub open spec fn nullary_rewrite(
    hir: Hir,
    name: Seq<char>,
    own: usize,
    output: usize,
) -> Option<RewriteView> {
    let option = both(hir, own, output, Known::OptionTy);
    let result = both(hir, own, output, Known::ResultTy);
    let text = hir.stringy(own) && hir.stringy(output);
    let inner = hir.ty_arg(output, Known::OptionTy, 0);
    if name == "is_some"@ {
        bare_if(option, "is_some"@)
    } else if name == "is_none"@ {
        bare_if(option, "is_none"@)
    } else if name == "is_ok"@ {
        bare_if(result, "is_ok"@)
    } else if name == "is_err"@ {
        bare_if(result, "is_err"@)
    } else if name == "is_empty"@ {
        bare_if(text, "str_is_empty"@)
    } else if name == "len"@ {
        bare_if(text, "str_len"@)
    } else if name == "abs"@ {
        bare_if(signed(hir, own) && nominally_same(hir, own, output), "abs"@)
    } else if name == "unwrap_or_default"@ {
        bare_if(hir.ty_is(own, Known::OptionTy) && inner is Some, "unwrap_or_default"@)
    } else if name == "flatten"@ {
        bare_if(
            hir.ty_is(own, Known::OptionTy) && inner is Some && hir.ty_is(
                inner->0,
                Known::OptionTy,
            ),
            "flatten"@,
        )
    } else if name == "ok"@ {
        bare_if(result, "ok"@)
    } else if name == "err"@ {
        bare_if(result, "err"@)
    } else {
        None
    }
}

fn bare_when(holds: bool, name: &'static str) -> (r: Option<Rewrite>)
    ensures
        rewrite_opt(r) == bare_if(holds, name@),
{
    if holds {
        Some(Rewrite::named(name))
    } else {
        None
    }
}

fn nullary(hir: &Hir, name: &str, own: usize, output: usize) -> (r: Option<Rewrite>)
    requires
        hir.wf(),
        own < hir.types.len(),
        output < hir.types.len(),
    ensures
        rewrite_opt(r) == nullary_rewrite(*hir, name@, own, output),
{
    if text::str_eq(name, "is_some") {
        bare_when(is_both(hir, own, output, Known::OptionTy), "is_some")
    } else if text::str_eq(name, "is_none") {
        bare_when(is_both(hir, own, output, Known::OptionTy), "is_none")
    } else if text::str_eq(name, "is_ok") {
        bare_when(is_both(hir, own, output, Known::ResultTy), "is_ok")
    } else if text::str_eq(name, "is_err") {
        bare_when(is_both(hir, own, output, Known::ResultTy), "is_err")
    } else if text::str_eq(name, "is_empty") {
        bare_when(hir.is_string_ty(own) && hir.is_string_ty(output), "str_is_empty")
    } else if text::str_eq(name, "len") {
        bare_when(hir.is_string_ty(own) && hir.is_string_ty(output), "str_len")
    } else if text::str_eq(name, "abs") {
        bare_when(is_signed(hir, own) && same_nominal(hir, own, output), "abs")
    } else if text::str_eq(name, "unwrap_or_default") {
        bare_when(
            hir.is_adt(own, Known::OptionTy) && hir.adt_arg(output, Known::OptionTy, 0).is_some(),
            "unwrap_or_default",
        )
    } else if text::str_eq(name, "flatten") {
        let nested: bool = match hir.adt_arg(output, Known::OptionTy, 0) {
            Some(inner) => hir.is_adt(inner, Known::OptionTy),
            None => false,
        };
        bare_when(hir.is_adt(own, Known::OptionTy) && nested, "flatten")
    } else if text::str_eq(name, "ok") {
        bare_when(is_both(hir, own, output, Known::ResultTy), "ok")
    } else if text::str_eq(name, "err") {
        bare_when(is_both(hir, own, output, Known::ResultTy), "err")
    } else {
        None
    }
}

/// `f` can be stored as a callable on the type, where there is one.
pub open spec fn movable_on(hir: Hir, f: usize, param: usize, input: Option<usize>) -> bool {
    match input {
        Some(t) => movable(hir, f, param, seq![t]),
        None => false,
    }
}

fn movable_fn_on(hir: &Hir, f: usize, param: usize, input: Option<usize>) -> (r: bool)
    requires
        hir.wf(),
        hir.has(f),
    ensures
        r == movable_on(*hir, f, param, input),
{
    match input {
        Some(t) => {
            let mut inputs: Vec<usize> = Vec::new();
            inputs.push(t);
            proof {
                assert(inputs@ =~= seq![t]);
            }
            movable_fn(hir, f, param, &inputs)
        },
        None => false,
    }
}

/// The `i`th argument of `Result<T, E>`, where the type has both.
pub open spec fn result_part(hir: Hir, t: usize, i: int) -> Option<usize> {
    if hir.ty_arg(t, Known::ResultTy, 1) is Some {
        hir.ty_arg(t, Known::ResultTy, i)
    } else {
        None
    }
}

fn result_arg(hir: &Hir, t: usize, i: usize) -> (r: Option<usize>)
    requires
        hir.wf(),
        t < hir.types.len(),
    ensures
        r == result_part(*hir, t, i as int),
{
    if hir.adt_arg(t, Known::ResultTy, 1).is_some() {
        hir.adt_arg(t, Known::ResultTy, i)
    } else {
        None
    }
}

/// The combinator that a method with one argument spells.
pub open spec fn unary_rewrite(
    hir: Hir,
    name: Seq<char>,
    arg: usize,
    own: usize,
    param: usize,
    output: usize,
) -> Option<RewriteView> {
    let option = both(hir, own, output, Known::OptionTy);
    let result = both(hir, own, output, Known::ResultTy);
    let some = hir.ty_arg(output, Known::OptionTy, 0);
    let ok = result_part(hir, output, 0);
    let err = result_part(hir, output, 1);
    let of_option = hir.ty_is(own, Known::OptionTy);
    let of_result = hir.ty_is(own, Known::ResultTy);
    if name == "contains"@ {
        over_if(
            hir.stringy(own) && hir.stringy(output) && free_of(hir, arg, param) && text_pattern(
                hir,
                arg,
            ),
            "str_contains"@,
            arg,
        )
    } else if name == "unwrap_or"@ {
        if option {
            over_if(stores(hir, arg, param), "unwrap_or"@, arg)
        } else {
            over_if(result && stores(hir, arg, param), "unwrap_or_result"@, arg)
        }
    } else if name == "unwrap_or_else"@ {
        if option && movable(hir, arg, param, seq![]) {
            over("unwrap_or_else"@, arg)
        } else {
            over_if(of_result && movable_on(hir, arg, param, err), "unwrap_or_else_result"@, arg)
        }
    } else if name == "map"@ {
        if of_option && movable_on(hir, arg, param, some) {
            over("map_some"@, arg)
        } else {
            over_if(of_result && movable_on(hir, arg, param, ok), "map_ok"@, arg)
        }
    } else if name == "and_then"@ {
        over_if(of_option && movable_on(hir, arg, param, some), "and_then_some"@, arg)
    } else if name == "map_err"@ {
        over_if(of_result && movable_on(hir, arg, param, err), "map_err"@, arg)
    } else if name == "then_some"@ {
        over_if(
            hir.ty(own).kind is Bool && hir.ty(output).kind is Bool && stores(hir, arg, param),
            "then_some"@,
            arg,
        )
    } else {
        None
    }
}

fn over_when(holds: bool, name: &'static str, arg: usize) -> (r: Option<Rewrite>)
    ensures
        rewrite_opt(r) == over_if(holds, name@, arg),
{
    if holds {
        Some(Rewrite::args(name, arg))
    } else {
        None
    }
}

fn is_bool(hir: &Hir, t: usize) -> (r: bool)
    requires
        t < hir.types.len(),
    ensures
        r == hir.ty(t).kind is Bool,
{
    match &hir.types[t].kind {
        TyKind::Bool => true,
        _ => false,
    }
}

fn unary(hir: &Hir, name: &str, arg: usize, own: usize, param: usize, output: usize) -> (r: Option<
    Rewrite,
>)
    requires
        hir.wf(),
        hir.has(arg),
        own < hir.types.len(),
        output < hir.types.len(),
    ensures
        rewrite_opt(r) == unary_rewrite(*hir, name@, arg, own, param, output),
{
    let none: Vec<usize> = Vec::new();
    proof {
        assert(none@ =~= seq![]);
    }
    if text::str_eq(name, "contains") {
        over_when(
            hir.is_string_ty(own) && hir.is_string_ty(output) && free_of_param(hir, arg, param)
                && string_pattern(hir, arg),
            "str_contains",
            arg,
        )
    } else if text::str_eq(name, "unwrap_or") {
        if is_both(hir, own, output, Known::OptionTy) {
            stored_rewrite(hir, "unwrap_or", arg, param)
        } else {
            over_when(
                is_both(hir, own, output, Known::ResultTy) && stored_operand(hir, arg, param),
                "unwrap_or_result",
                arg,
            )
        }
    } else if text::str_eq(name, "unwrap_or_else") {
        if is_both(hir, own, output, Known::OptionTy) && movable_fn(hir, arg, param, &none) {
            return Some(Rewrite::args("unwrap_or_else", arg));
        }
        let err: Option<usize> = result_arg(hir, output, 1);
        over_when(
            hir.is_adt(own, Known::ResultTy) && movable_fn_on(hir, arg, param, err),
            "unwrap_or_else_result",
            arg,
        )
    } else if text::str_eq(name, "map") {
        let some: Option<usize> = hir.adt_arg(output, Known::OptionTy, 0);
        if hir.is_adt(own, Known::OptionTy) && movable_fn_on(hir, arg, param, some) {
            return Some(Rewrite::args("map_some", arg));
        }
        let ok: Option<usize> = result_arg(hir, output, 0);
        over_when(
            hir.is_adt(own, Known::ResultTy) && movable_fn_on(hir, arg, param, ok),
            "map_ok",
            arg,
        )
    } else if text::str_eq(name, "and_then") {
        let some: Option<usize> = hir.adt_arg(output, Known::OptionTy, 0);
        over_when(
            hir.is_adt(own, Known::OptionTy) && movable_fn_on(hir, arg, param, some),
            "and_then_some",
            arg,
        )
    } else if text::str_eq(name, "map_err") {
        let err: Option<usize> = result_arg(hir, output, 1);
        over_when(
            hir.is_adt(own, Known::ResultTy) && movable_fn_on(hir, arg, param, err),
            "map_err",
            arg,
        )
    } else if text::str_eq(name, "then_some") {
        over_when(
            is_bool(hir, own) && is_bool(hir, output) && stored_operand(hir, arg, param),
            "then_some",
            arg,
        )
    } else {
        None
    }
}

/// The combinator that `v.<method>(..)` spells.
pub open spec fn method_rewrite(hir: Hir, n: usize, param: usize, output: usize) -> Option<
    RewriteView,
> {
    let own = hir.node(n).inherent;
    match hir.kind(n) {
        Kind::MethodCall { name, receiver, args } => if !reads(hir, receiver, param) || hir.node(
            n,
        ).callee is None {
            None
        } else if args@.len() == 0 && name.name@ == "clone"@ && hir.node(n).ty == output && (
        hir.resolves_item(n, Known::Clone) || (own is Some && nominally_same(
            hir,
            own->0,
            output,
        ))) {
            Some(RewriteView::Identity)
        } else if args@.len() == 0 && name.name@ == "into"@ && hir.resolves_item(n, Known::Into) {
            Some(RewriteView::MapInto)
        } else if own is None {
            None
        } else if args@.len() == 0 {
            nullary_rewrite(hir, name.name@, own->0, output)
        } else if args@.len() == 1 {
            unary_rewrite(hir, name.name@, args@[0], own->0, param, output)
        } else {
            None
        },
        _ => None,
    }
}

/// The combinator `v.<method>(..)` spells, when the method is the matching
/// inherent method and the signal's `Output` has the required shape. `clone` and
/// `into` resolve to trait items, so they are looked at first.
pub fn method_combinator(hir: &Hir, n: usize, param: usize, output: usize) -> (r: Option<Rewrite>)
    requires
        hir.wf(),
        hir.has(n),
        output < hir.types.len(),
    ensures
        rewrite_opt(r) == method_rewrite(*hir, n, param, output),
{
    proof {
        assert(hir.node_wf(n));
    }
    match &hir.nodes[n].kind {
        Kind::MethodCall { name, receiver, args } => {
            if !is_param(hir, *receiver, param) || hir.nodes[n].callee.is_none() {
                return None;
            }
            let own: Option<usize> = hir.nodes[n].inherent;
            let method: &str = name.name.as_str();
            if args.len() == 0 && text::str_eq(method, "clone") && hir.nodes[n].ty == output {
                let same: bool = match own {
                    Some(own) => same_nominal(hir, own, output),
                    None => false,
                };
                if hir.resolves_of(n, Known::Clone) || same {
                    return Some(Rewrite::Identity);
                }
            }
            if args.len() == 0 && text::str_eq(method, "into") && hir.resolves_of(n, Known::Into) {
                return Some(Rewrite::MapInto);
            }
            match own {
                Some(own) => if args.len() == 0 {
                    nullary(hir, method, own, output)
                } else if args.len() == 1 {
                    unary(hir, method, args[0], own, param, output)
                } else {
                    None
                },
                None => None,
            }
        },
        _ => None,
    }
}

/// The combinator that `body` spells for a `map` over `param`, whose type is
/// `output`.
pub open spec fn body_rewrite(hir: Hir, body: usize, param: usize, output: usize) -> Option<
    RewriteView,
> {
    let boolean = hir.ty(output).kind is Bool;
    if reads(hir, body, param) {
        Some(RewriteView::Identity)
    } else {
        match hir.kind(body) {
            Kind::Unary { op: UnOp::Not, operand } => bare_if(
                reads(hir, operand, param) && boolean,
                "not"@,
            ),
            Kind::Unary { op: UnOp::Neg, operand } => bare_if(
                reads(hir, operand, param) && signed(hir, output),
                "negate"@,
            ),
            Kind::Binary { op, lhs, rhs } => if reads(hir, lhs, param) && free_of(hir, rhs, param)
                && hir.node(rhs).ty == output && hir.ty(output).known_clone() {
                binary_rewrite(hir, op, rhs, param, output)
            } else {
                None
            },
            Kind::MethodCall { .. } => method_rewrite(hir, body, param, output),
            Kind::Call { .. } => call_rewrite(hir, body, param),
            Kind::If { cond, then, els } => match els {
                Some(els) => if reads(hir, cond, param) && boolean {
                    if_rewrite(hir, then, els, param)
                } else {
                    None
                },
                None => None,
            },
            _ => None,
        }
    }
}

/// The combinator `body` spells for a `map` over parameter `param` with the
/// signal's `Output` type `output`; nothing when the body is not one of the
/// named shapes. A comparison needs `Output: Clone`, which `v == e` does not
/// prove.
pub fn combinator(hir: &Hir, body: usize, param: usize, output: usize) -> (r: Option<Rewrite>)
    requires
        hir.wf(),
        hir.has(body),
        output < hir.types.len(),
    ensures
        rewrite_opt(r) == body_rewrite(*hir, body, param, output),
{
    if is_param(hir, body, param) {
        return Some(Rewrite::Identity);
    }
    proof {
        assert(hir.node_wf(body));
    }
    match &hir.nodes[body].kind {
        Kind::Unary { op: UnOp::Not, operand } => bare_when(
            is_param(hir, *operand, param) && is_bool(hir, output),
            "not",
        ),
        Kind::Unary { op: UnOp::Neg, operand } => bare_when(
            is_param(hir, *operand, param) && is_signed(hir, output),
            "negate",
        ),
        Kind::Binary { op, lhs, rhs } => if is_param(hir, *lhs, param) && free_of_param(
            hir,
            *rhs,
            param,
        ) && hir.nodes[*rhs].ty == output && hir.types[output].is_known_clone() {
            binary_combinator(hir, *op, *rhs, param, output)
        } else {
            None
        },
        Kind::MethodCall { .. } => method_combinator(hir, body, param, output),
        Kind::Call { .. } => call_combinator(hir, body, param),
        Kind::If { cond, then, els } => match *els {
            Some(els) => if is_param(hir, *cond, param) && is_bool(hir, output) {
                if_combinator(hir, *then, els, param)
            } else {
                None
            },
            None => None,
        },
        _ => None,
    }
}

/// The sources of the first `n` operands.
pub open spec fn arg_sources(hir: Hir, args: Seq<usize>, n: int) -> Seq<Seq<char>> {
    Seq::new(n as nat, |i: int| hir.source_or_dots(args[i]))
}

/// What is left of the applicability after the first `n` operands.
pub open spec fn after_args(
    hir: Hir,
    args: Seq<usize>,
    n: int,
    applicability: Applicability,
) -> Applicability
    decreases n,
{
    if n <= 0 {
        applicability
    } else {
        hir.after_source(args[n - 1], after_args(hir, args, n - 1, applicability))
    }
}

/// The sources of the operands with commas between them, and what is left of the
/// applicability.
pub fn arg_list(hir: &Hir, args: &Vec<usize>, applicability: Applicability) -> (r: (
    String,
    Applicability,
))
    requires
        hir::all_below(args@, hir.nodes.len() as int),
    ensures
        r.0@ == text::joined(arg_sources(*hir, args@, args@.len() as int), ", "@),
        r.1 == after_args(*hir, args@, args@.len() as int, applicability),
{
    let mut list: Vec<String> = Vec::new();
    let mut left: Applicability = applicability;
    let mut i: usize = 0;
    while i < args.len()
        invariant
            i <= args.len(),
            hir::all_below(args@, hir.nodes.len() as int),
            list.len() == i,
            forall|k: int| 0 <= k < i ==> list@[k]@ == hir.source_or_dots(#[trigger] args@[k]),
            left == after_args(*hir, args@, i as int, applicability),
        decreases args.len() - i,
    {
        let (source, next) = hir.snippet_with_applicability(args[i], left);
        list.push(source);
        left = next;
        i = i + 1;
    }
    proof {
        assert(text::texts(list@) =~= arg_sources(*hir, args@, args@.len() as int));
    }
    (text::join(&list, ", "), left)
}

/// A type that the compiler has built in: `bool`, `char` or a number.
pub open spec fn primitive(hir: Hir, t: usize) -> bool {
    hir.ty(t).kind is Bool || hir.ty(t).kind is Char || numeric(hir, t)
}

fn is_primitive(hir: &Hir, t: usize) -> (r: bool)
    requires
        t < hir.types.len(),
    ensures
        r == primitive(*hir, t),
{
    match &hir.types[t].kind {
        TyKind::Bool | TyKind::Char | TyKind::Int { .. } | TyKind::Uint { .. } | TyKind::Float {
            ..
        } => true,
        _ => false,
    }
}

/// What a `map_into` converts to: the last argument of the mapped signal's
/// type, where it is known in full.
pub open spec fn conversion_target(hir: Hir, n: usize) -> Option<usize> {
    match hir.expr_ty(n).kind {
        TyKind::Adt { def: _, args } => if args@.len() > 0 && !hir.ty(args@.last()).has_infer {
            Some(args@.last())
        } else {
            None
        },
        _ => None,
    }
}

/// The replacement for the map `n` over `receiver`, and how far it can be
/// trusted; nothing where it has no safe spelling.
pub open spec fn spelling(hir: Hir, n: usize, receiver: usize, rewrite: RewriteView) -> Option<
    (Seq<char>, Applicability),
> {
    let operand = hir.operand_or_dots(receiver);
    let applicability = hir.after_sugg(receiver, Applicability::MachineApplicable);
    match rewrite {
        RewriteView::Named { name, args, not } => Some(
            (
                operand + "."@ + name + "("@ + text::joined(
                    arg_sources(hir, args, args.len() as int),
                    ", "@,
                ) + ")"@ + (if not {
                    ".not()"@
                } else {
                    ""@
                }),
                after_args(hir, args, args.len() as int, applicability),
            ),
        ),
        RewriteView::Identity => {
            let clones = hir.node(receiver).derefs > 0 || hir.node(receiver).place;
            let owned = hir.referent(hir.node(receiver).adjusted);
            if clones && !hir.ty(owned).known_clone() {
                None
            } else {
                Some((hir.owned_or_dots(receiver), applicability))
            }
        },
        RewriteView::MapInto => match conversion_target(hir, n) {
            Some(t) => Some(
                (
                    operand + ".map_into::<"@ + hir.ty(t).text@ + ">()"@,
                    if primitive(hir, t) {
                        applicability
                    } else {
                        Applicability::MaybeIncorrect
                    },
                ),
            ),
            None => Some((operand + ".map_into()"@, Applicability::MaybeIncorrect)),
        },
    }
}

/// The operands of a rewrite are nodes.
pub open spec fn rewrite_in(hir: Hir, rewrite: RewriteView) -> bool {
    match rewrite {
        RewriteView::Named { name: _, args, not: _ } => hir::all_below(
            args,
            hir.nodes@.len() as int,
        ),
        _ => true,
    }
}

/// The replacement for the map.
///
/// Deleting the `map` hands the receiver to the consumer by value: a place
/// clones, a temporary moves. A place whose type is not `Clone` has no safe
/// spelling. The conversion target of a `map_into` is spelled where it is
/// known; one that is no primitive may not be nameable as displayed.
pub fn spell(hir: &Hir, n: usize, receiver: usize, rewrite: &Rewrite) -> (r: Option<
    (String, Applicability),
>)
    requires
        hir.wf(),
        hir.has(n),
        hir.has(receiver),
        rewrite_in(*hir, rewrite@),
    ensures
        match r {
            Some((code, applicability)) => spelling(*hir, n, receiver, rewrite@) == Some(
                (code@, applicability),
            ),
            None => spelling(*hir, n, receiver, rewrite@) is None,
        },
{
    proof {
        assert(hir.node_wf(n));
        assert(hir.node_wf(receiver));
        assert(hir.types@[hir.node(n).ty as int].below(hir.node(n).ty as int));
    }
    let operand: String = hir.operand_text(receiver);
    let applicability: Applicability = hir.sugg_applicability(
        receiver,
        Applicability::MachineApplicable,
    );
    match rewrite {
        Rewrite::Named { name, args, not } => {
            let (list, left) = arg_list(hir, args, applicability);
            let mut code: String = text::cat5(operand.as_str(), ".", name, "(", list.as_str());
            code.append(")");
            code.append(
                if *not {
                    ".not()"
                } else {
                    ""
                },
            );
            Some((code, left))
        },
        Rewrite::Identity => {
            let clones: bool = hir.nodes[receiver].derefs > 0 || hir.nodes[receiver].place;
            let owned: usize = hir.peel_refs(hir.nodes[receiver].adjusted);
            if clones && !hir.types[owned].is_known_clone() {
                return None;
            }
            Some((hir.owned_spelling(receiver), applicability))
        },
        Rewrite::MapInto => {
            if let TyKind::Adt { args, .. } = &hir.type_of(n).kind {
                if args.len() > 0 {
                    let t: usize = args[args.len() - 1];
                    if !hir.types[t].has_infer {
                        let left: Applicability = if is_primitive(hir, t) {
                            applicability
                        } else {
                            Applicability::MaybeIncorrect
                        };
                        return Some(
                            (
                                text::cat4(
                                    operand.as_str(),
                                    ".map_into::<",
                                    hir.types[t].text.as_str(),
                                    ">()",
                                ),
                                left,
                            ),
                        );
                    }
                }
            }
            Some((text::cat(operand.as_str(), ".map_into()"), Applicability::MaybeIncorrect))
        },
    }
}

/// The parameter of a closure that is one plain binding, its pattern, and the
/// body.
pub open spec fn plain_closure(hir: Hir, func: usize) -> Option<(usize, usize, usize)> {
    match signal_map::one_param_closure(hir, func) {
        Some((pat, body)) => match hir.kind(pat) {
            Kind::Binding { name: _, id, sub } => if sub is None {
                Some((id, pat, body))
            } else {
                None
            },
            _ => None,
        },
        None => None,
    }
}

/// The parameter of a closure that is one plain binding, its pattern, and the
/// body.
pub fn plain_closure_parts(hir: &Hir, func: usize) -> (r: Option<(usize, usize, usize)>)
    requires
        hir.wf(),
        hir.has(func),
    ensures
        r == plain_closure(*hir, func),
        r matches Some(p) ==> p.1 < func && p.2 < func,
{
    match signal_map::closure_parts(hir, func) {
        Some((pat, body)) => match &hir.nodes[pat].kind {
            Kind::Binding { id, sub, .. } => if sub.is_none() {
                Some((*id, pat, body))
            } else {
                None
            },
            _ => None,
        },
        None => None,
    }
}

/// The receiver and the argument of a method call with one argument.
pub open spec fn one_arg_method(hir: Hir, n: usize) -> Option<(usize, usize)> {
    match hir.kind(n) {
        Kind::MethodCall { name: _, receiver, args } => if args@.len() == 1 {
            Some((receiver, args@[0]))
        } else {
            None
        },
        _ => None,
    }
}

/// The receiver and the argument of a method call with one argument.
pub fn one_arg_method_parts(hir: &Hir, n: usize) -> (r: Option<(usize, usize)>)
    requires
        hir.wf(),
        hir.has(n),
    ensures
        r == one_arg_method(*hir, n),
        r matches Some(p) ==> p.0 < n && p.1 < n,
{
    proof {
        assert(hir.node_wf(n));
    }
    match &hir.nodes[n].kind {
        Kind::MethodCall { receiver, args, .. } => if args.len() == 1 {
            Some((*receiver, args[0]))
        } else {
            None
        },
        _ => None,
    }
}

/// What the lint finds at the expression `n`.
pub open spec fn finding_at(hir: Hir, n: usize) -> Option<DiagnosticView> {
    match one_arg_method(hir, n) {
        Some((receiver, func)) => match plain_closure(hir, func) {
            Some((param, pat, body)) => match body_rewrite(
                hir,
                hir.evaluated(body),
                param,
                hir.node(pat).ty,
            ) {
                Some(rewrite) => match spelling(hir, n, hir.undropped(receiver), rewrite) {
                    Some((code, applicability)) => if hir.node(n).span.expanded()
                        || !hir.resolves_item(n, Known::SignalMap) {
                        None
                    } else {
                        Some(
                            DiagnosticView::with_sugg(
                                Lint::ManualSignalCombinator,
                                hir.node(n).span,
                                "this `map` closure is a named `SignalExt` combinator"@,
                                "use the combinator"@,
                                code,
                                applicability,
                            ),
                        )
                    },
                    None => None,
                },
                None => None,
            },
            None => None,
        },
        None => None,
    }
}

proof fn lemma_rewrite_in(hir: Hir, body: usize, param: usize, output: usize)
    requires
        hir.wf(),
        hir.has(body),
    ensures
        body_rewrite(hir, body, param, output) matches Some(rewrite) ==> rewrite_in(hir, rewrite),
{
    assert(hir.node_wf(body));
    match hir.kind(body) {
        Kind::Binary { op: _, lhs: _, rhs } => {
            assert(hir.node_wf(rhs));
        },
        Kind::If { cond: _, then, els } => {
            lemma_evaluated_below(hir, then);
            assert(hir.node_wf(hir.evaluated(then)));
            if els is Some {
                lemma_evaluated_below(hir, els->0);
            }
        },
        _ => {},
    }
}

proof fn lemma_evaluated_below(hir: Hir, n: usize)
    ensures
        hir.evaluated(n) <= n,
    decreases n,
{
    match (hir.kind(n), hir.sole_tail(n)) {
        (Kind::DropTemps { inner }, _) => {
            if inner < n {
                lemma_evaluated_below(hir, inner);
            }
        },
        (_, Some(tail)) => {
            if tail < n {
                lemma_evaluated_below(hir, tail);
            }
        },
        _ => {},
    }
}

/// Checks one expression.
pub fn check_expr(hir: &Hir, n: usize) -> (r: Option<Diagnostic>)
    requires
        hir.wf(),
        hir.has(n),
    ensures
        diagnostics::found(r) == finding_at(*hir, n),
{
    if hir.nodes[n].span.from_expansion() || !hir.resolves_of(n, Known::SignalMap) {
        return None;
    }
    let (receiver, func) = match one_arg_method_parts(hir, n) {
        Some(parts) => parts,
        None => {
            return None;
        },
    };
    let (param, pat, body) = match plain_closure_parts(hir, func) {
        Some(parts) => parts,
        None => {
            return None;
        },
    };
    proof {
        assert(hir.node_wf(pat));
        lemma_evaluated_below(*hir, body);
        lemma_rewrite_in(*hir, hir.evaluated(body), param, hir.node(pat).ty);
    }
    let output: usize = hir.nodes[pat].ty;
    let rewrite: Rewrite = match combinator(hir, hir.body_expr(body), param, output) {
        Some(rewrite) => rewrite,
        None => {
            return None;
        },
    };
    match spell(hir, n, hir.peel_drop_temps(receiver), &rewrite) {
        Some((code, applicability)) => Some(
            Diagnostic::with_sugg(
                Lint::ManualSignalCombinator,
                hir.nodes[n].span,
                "this `map` closure is a named `SignalExt` combinator",
                "use the combinator",
                code,
                applicability,
            ),
        ),
        None => None,
    }
}

} // verus!
