//! `needless_computed`: `.computed()`, `.into_computed()`, and
//! `Computed::new(..)` erasures whose result only ever reaches a parameter that
//! already accepts any signal.

use crate::computed;
use crate::diagnostics;
use crate::diagnostics::{Applicability, Diagnostic, DiagnosticView, RemarkView};
use crate::hir;
use crate::hir::{Bound, CallSig, Hir, Home, Kind, Span, TyKind, UnOp};
use crate::known::Known;
use crate::lint::Lint;
use crate::receiver;
use crate::text;
use vstd::prelude::*;

verus! {

pub open spec fn message() -> Seq<char> {
    "this `computed()` erases a signal that every consumer already accepts"@
}

/// Parameter bounds that already accept any signal. `IntoText` and `IntoLabel`
/// are absent: they are implemented for `Computed`, `Binding` and the text leaf
/// types, not for arbitrary signals.
pub open spec fn any_signal() -> Seq<Known> {
    seq![
        Known::IntoComputedTrait,
        Known::IntoSignalTrait,
        Known::SignalTrait,
        Known::IntoSignalF32,
    ]
}

/// Where a value flows.
#[derive(Debug)]
pub enum Flow {
    /// It sits at operand `index` of `call`: 0 is the method receiver.
    Arg { call: usize, index: usize },
    /// It is bound by these bindings: of a `let` initializer, or the patterns of
    /// an `if let`, `while let`, `match` or `?` scrutinee.
    Bound(Vec<usize>),
    /// It is consumed any other way: a field, a branch, a return, the callee.
    End,
}

pub ghost enum FlowView {
    Arg { call: usize, index: int },
    Bound(Seq<usize>),
    End,
}

impl View for Flow {
    type V = FlowView;

    open spec fn view(&self) -> FlowView {
        match *self {
            Flow::Arg { call, index } => FlowView::Arg { call, index: index as int },
            Flow::Bound(bindings) => FlowView::Bound(bindings@),
            Flow::End => FlowView::End,
        }
    }
}

/// The bindings of the patterns of the first `n` arms.
pub open spec fn arm_bindings(hir: Hir, arms: Seq<usize>, n: int) -> Seq<usize>
    decreases n,
{
    if n <= 0 {
        seq![]
    } else {
        arm_bindings(hir, arms, n - 1) + (match hir.kind(arms[n - 1]) {
            Kind::Arm { pat, guard: _, body: _ } => hir.bindings(pat),
            _ => seq![],
        })
    }
}

fn bindings_of_arms(hir: &Hir, arms: &Vec<usize>) -> (r: Vec<usize>)
    requires
        hir.wf(),
        hir::all_below(arms@, hir.nodes@.len() as int),
    ensures
        r@ == arm_bindings(*hir, arms@, arms@.len() as int),
{
    let mut out: Vec<usize> = Vec::new();
    let mut i: usize = 0;
    while i < arms.len()
        invariant
            i <= arms.len(),
            hir.wf(),
            hir::all_below(arms@, hir.nodes@.len() as int),
            out@ == arm_bindings(*hir, arms@, i as int),
        decreases arms.len() - i,
    {
        let arm: usize = arms[i];
        proof {
            assert(hir.node_wf(arm));
        }
        if let Kind::Arm { pat, .. } = &hir.nodes[arm].kind {
            let mut own: Vec<usize> = hir.bindings_in(*pat);
            out.append(&mut own);
        }
        i = i + 1;
    }
    out
}

/// The call rewraps its operand: `x.clone()`, `.to_owned()` and `.to_string()`
/// copy the value; `Some(x)` wraps it in `Option`; `opt.map(closure)` wraps the
/// closure's return.
pub open spec fn carries(hir: Hir, call: usize, n: usize, index: int) -> bool {
    ||| index == 0 && hir.resolves(call, crate::carriers::carrier_calls())
    ||| hir.resolves_item(call, Known::OptionSome)
    ||| index == 1 && hir.kind(n) is Closure && hir.resolves_item(call, Known::OptionMap)
}

fn is_carried(hir: &Hir, call: usize, n: usize, index: usize) -> (r: bool)
    requires
        hir.has(call),
        hir.has(n),
    ensures
        r == carries(*hir, call, n, index as int),
{
    let closure: bool = match &hir.nodes[n].kind {
        Kind::Closure { .. } => true,
        _ => false,
    };
    (index == 0 && hir.resolves_to(call, &[Known::Clone, Known::ToOwned, Known::ToString]))
        || hir.resolves_of(call, Known::OptionSome) || (index == 1 && closure && hir.resolves_of(
        call,
        Known::OptionMap,
    ))
}

/// Where the value of `n` flows, through drop-temps, `&` and `*`, block tails,
/// carriers, `Some(..)`, and the `Option::map` closure it is the tail of.
pub open spec fn flow_of(hir: Hir, n: usize) -> FlowView
    decreases hir.nodes@.len() - n,
{
    match hir.up(n) {
        Some(p) => match hir.kind(p) {
            Kind::DropTemps { inner: _ } => flow_of(hir, p),
            Kind::AddrOf { mutable: _, raw: _, operand: _ } => flow_of(hir, p),
            Kind::Unary { op, operand: _ } => if op is Deref {
                flow_of(hir, p)
            } else {
                FlowView::End
            },
            Kind::Closure { params: _, body, by_move: _ } => if body == n {
                flow_of(hir, p)
            } else {
                FlowView::End
            },
            Kind::BlockExpr { block: _ } => flow_of(hir, p),
            Kind::Block { stmts: _, tail } => if tail == Some(n) {
                flow_of(hir, p)
            } else {
                FlowView::End
            },
            Kind::Call { .. } => match hir.operand_place(p, n) {
                Some(index) => if carries(hir, p, n, index) {
                    flow_of(hir, p)
                } else {
                    FlowView::Arg { call: p, index }
                },
                None => FlowView::End,
            },
            Kind::MethodCall { .. } => match hir.operand_place(p, n) {
                Some(index) => if carries(hir, p, n, index) {
                    flow_of(hir, p)
                } else {
                    FlowView::Arg { call: p, index }
                },
                None => FlowView::End,
            },
            Kind::Match { scrutinee, arms, source: _ } => if scrutinee == n {
                FlowView::Bound(arm_bindings(hir, arms@, arms@.len() as int))
            } else {
                FlowView::End
            },
            Kind::Let { pat, init } => if init == n {
                FlowView::Bound(hir.bindings(pat))
            } else {
                FlowView::End
            },
            Kind::LetStmt { pat, ty, init, els: _ } => if init == Some(n) && ty is None {
                FlowView::Bound(hir.bindings(pat))
            } else {
                FlowView::End
            },
            _ => FlowView::End,
        },
        None => FlowView::End,
    }
}

/// Follows the value of `n` through value-preserving wrappers to where it is
/// consumed: an argument position, a set of bound locals, or an end the lint
/// does not understand. An annotation on a `let` pins the `Computed` type that
/// the rewrite drops.
pub fn flow(hir: &Hir, n: usize) -> (r: Flow)
    requires
        hir.wf(),
        hir.has(n),
    ensures
        r@ == flow_of(*hir, n),
        r matches Flow::Arg { call, .. } ==> hir.has(call),
    decreases hir.nodes.len() - n,
{
    let p: usize = match hir.parent(n) {
        Some(p) => p,
        None => {
            return Flow::End;
        },
    };
    proof {
        assert(hir.node_wf(p));
    }
    match &hir.nodes[p].kind {
        Kind::DropTemps { .. } | Kind::AddrOf { .. } | Kind::BlockExpr { .. } => flow(hir, p),
        Kind::Unary { op, .. } => if *op == UnOp::Deref {
            flow(hir, p)
        } else {
            Flow::End
        },
        Kind::Closure { body, .. } => if *body == n {
            flow(hir, p)
        } else {
            Flow::End
        },
        Kind::Block { tail, .. } => {
            let own: bool = match tail {
                Some(tail) => *tail == n,
                None => false,
            };
            if own {
                flow(hir, p)
            } else {
                Flow::End
            }
        },
        Kind::Call { .. } | Kind::MethodCall { .. } => match hir.arg_index(p, n) {
            Some(index) => if is_carried(hir, p, n, index) {
                flow(hir, p)
            } else {
                Flow::Arg { call: p, index }
            },
            None => Flow::End,
        },
        Kind::Match { scrutinee, arms, .. } => if *scrutinee == n {
            Flow::Bound(bindings_of_arms(hir, arms))
        } else {
            Flow::End
        },
        Kind::Let { pat, init } => if *init == n {
            Flow::Bound(hir.bindings_in(*pat))
        } else {
            Flow::End
        },
        Kind::LetStmt { pat, ty, init, .. } => {
            let own: bool = match init {
                Some(init) => *init == n,
                None => false,
            };
            if own && ty.is_none() {
                Flow::Bound(hir.bindings_in(*pat))
            } else {
                Flow::End
            }
        },
        _ => Flow::End,
    }
}

/// Every bound is one of `items` or `Sized`.
pub open spec fn all_among(hir: Hir, bounds: Seq<Bound>, items: Seq<Known>) -> bool {
    forall|i: int|
        0 <= i < bounds.len() ==> hir.def_in((#[trigger] bounds[i]).def, items) || hir.is_def(
            bounds[i].def,
            Known::SizedTrait,
        )
}

fn are_all_among(hir: &Hir, bounds: &Vec<Bound>, items: &[Known]) -> (r: bool)
    ensures
        r == all_among(*hir, bounds@, items@),
{
    let mut i: usize = 0;
    while i < bounds.len()
        invariant
            i <= bounds.len(),
            forall|k: int|
                0 <= k < i ==> hir.def_in((#[trigger] bounds@[k]).def, items@) || hir.is_def(
                    bounds@[k].def,
                    Known::SizedTrait,
                ),
        decreases bounds.len() - i,
    {
        let def: usize = bounds[i].def;
        if !hir.def_path_in(def, items) && !hir.def_path_eq(def, Known::SizedTrait) {
            assert(!hir.def_in(bounds@[i as int].def, items@));
            return false;
        }
        i = i + 1;
    }
    true
}

/// The parameter accepts any signal, and asks for nothing else.
pub open spec fn accepts_signal(hir: Hir, call: usize, index: int) -> bool {
    match hir.node(call).bounds {
        Some(bounds) => 0 <= index < bounds@.len() && hir.any_bound(bounds@[index]@, any_signal())
            && all_among(hir, bounds@[index]@, any_signal()),
        None => false,
    }
}

/// Whether the parameter at `index` accepts any signal: it carries such a bound,
/// and every bound on it is one or `Sized`, since an unchecked extra bound
/// (`impl IntoComputed<T> + Into<Computed<T>>`) could reject the un-erased
/// signal.
pub fn reaches_signal_param(hir: &Hir, call: usize, index: usize) -> (r: bool)
    requires
        hir.has(call),
    ensures
        r == accepts_signal(*hir, call, index as int),
{
    match &hir.nodes[call].bounds {
        Some(bounds) => if index < bounds.len() {
            let items: [Known; 4] = [
                Known::IntoComputedTrait,
                Known::IntoSignalTrait,
                Known::SignalTrait,
                Known::IntoSignalF32,
            ];
            proof {
                assert(items@ =~= any_signal());
            }
            hir.bounds_hold(&bounds[index], &items) && are_all_among(hir, &bounds[index], &items)
        } else {
            false
        },
        None => false,
    }
}

/// The types that a type is made of.
pub open spec fn ty_parts(hir: Hir, t: usize) -> Seq<usize> {
    match hir.ty(t).kind {
        TyKind::Ref { inner, mutable: _ } => seq![inner],
        TyKind::Slice { element } => seq![element],
        TyKind::Adt { def: _, args } => args@,
        TyKind::Tuple { parts } => parts@,
        TyKind::Closure { inputs } => inputs@,
        TyKind::Alias { self_ty: _, def: _, projection: _, args } => args@,
        TyKind::Other { parts } => parts@,
        _ => seq![],
    }
}

/// What a projection on `self_ty` says, where the type is one.
pub open spec fn projected(hir: Hir, t: usize, self_ty: usize) -> Option<bool> {
    match hir.ty(t).kind {
        TyKind::Alias { self_ty: own, def, projection, args: _ } => if own == self_ty {
            Some(!(projection && hir.is_def(def, Known::SignalOutput)))
        } else {
            None
        },
        _ => None,
    }
}

/// One of the types, of those before `bound`, mentions `self_ty`.
pub open spec fn mentioned(hir: Hir, list: Seq<usize>, bound: int, self_ty: usize) -> bool
    decreases bound, list.len(),
{
    if list.len() == 0 {
        false
    } else {
        let t = list.last();
        mentioned(hir, list.drop_last(), bound, self_ty) || (0 <= t < bound && (t == self_ty || (
        match projected(hir, t, self_ty) {
            Some(mention) => mention,
            None => mentioned(hir, ty_parts(hir, t), t as int, self_ty),
        })))
    }
}

/// The type mentions `self_ty`: directly, or through a projection on it other
/// than `Signal::Output`.
pub open spec fn mentions(hir: Hir, t: usize, self_ty: usize) -> bool {
    mentioned(hir, seq![t], t + 1, self_ty)
}

fn parts_of(hir: &Hir, t: usize) -> (r: Vec<usize>)
    requires
        hir.wf(),
        t < hir.types.len(),
    ensures
        r@ == ty_parts(*hir, t),
        hir::all_below(r@, t as int),
{
    proof {
        assert(hir.types@[t as int].below(t as int));
    }
    let mut out: Vec<usize> = Vec::new();
    let list: &Vec<usize> = match &hir.types[t].kind {
        TyKind::Ref { inner: one, .. } | TyKind::Slice { element: one } => {
            out.push(*one);
            return out;
        },
        TyKind::Adt { args: list, .. } | TyKind::Tuple { parts: list } | TyKind::Closure {
            inputs: list,
        } | TyKind::Alias { args: list, .. } | TyKind::Other { parts: list } => list,
        _ => {
            return out;
        },
    };
    let mut i: usize = 0;
    while i < list.len()
        invariant
            i <= list.len(),
            hir::all_below(list@, t as int),
            out@ == list@.take(i as int),
        decreases list.len() - i,
    {
        out.push(list[i]);
        i = i + 1;
    }
    proof {
        assert(list@.take(list.len() as int) =~= list@);
    }
    out
}

fn any_mentions(hir: &Hir, list: &Vec<usize>, bound: usize, self_ty: usize) -> (r: bool)
    requires
        hir.wf(),
        bound <= hir.types.len(),
        hir::all_below(list@, bound as int),
    ensures
        r == mentioned(*hir, list@, bound as int, self_ty),
    decreases bound,
{
    let mut i: usize = 0;
    proof {
        assert(list@.take(0) =~= seq![]);
    }
    while i < list.len()
        invariant
            i <= list.len(),
            hir.wf(),
            bound <= hir.types.len(),
            hir::all_below(list@, bound as int),
            !mentioned(*hir, list@.take(i as int), bound as int, self_ty),
        decreases list.len() - i,
    {
        let t: usize = list[i];
        proof {
            assert(list@.take(i + 1).drop_last() =~= list@.take(i as int));
            assert(list@.take(i + 1).last() == t);
        }
        let found: bool = if t == self_ty {
            true
        } else {
            match &hir.types[t].kind {
                TyKind::Alias { self_ty: own, def, projection, .. } => if *own == self_ty {
                    !(*projection && hir.def_path_eq(*def, Known::SignalOutput))
                } else {
                    let parts: Vec<usize> = parts_of(hir, t);
                    any_mentions(hir, &parts, t, self_ty)
                },
                _ => {
                    let parts: Vec<usize> = parts_of(hir, t);
                    any_mentions(hir, &parts, t, self_ty)
                },
            }
        };
        if found {
            proof {
                lemma_mentioned_prefix(*hir, list@, i + 1, bound as int, self_ty);
            }
            return true;
        }
        i = i + 1;
    }
    proof {
        assert(list@.take(list.len() as int) =~= list@);
    }
    false
}

proof fn lemma_mentioned_prefix(hir: Hir, list: Seq<usize>, n: int, bound: int, self_ty: usize)
    requires
        0 <= n <= list.len(),
        mentioned(hir, list.take(n), bound, self_ty),
    ensures
        mentioned(hir, list, bound, self_ty),
    decreases list.len() - n,
{
    if n == list.len() {
        assert(list.take(n) =~= list);
    } else {
        assert(list.take(n + 1).drop_last() =~= list.take(n));
        lemma_mentioned_prefix(hir, list, n + 1, bound, self_ty);
    }
}

/// The call's return type is the same whatever signal its receiver is.
pub open spec fn keeps_type(hir: Hir, call: usize) -> bool {
    match (hir.node(call).call_sig, hir.first_operand(call)) {
        (Some(sig), Some(receiver)) => {
            &&& !hir.expr_ty(receiver).has_infer
            &&& !hir.ty(sig.output).has_infer
            &&& !mentions(hir, sig.output, hir.node(receiver).ty)
        },
        _ => false,
    }
}

/// Whether the call's return type is the same whether its receiver is the erased
/// `Computed<T>` or the un-erased signal: true for `get` (`Self::Output`, pinned
/// to `T`) and `identity` (no `Self`); false for `watch` (`Self::Guard`) and
/// every adapter, whose result embeds `Self` and would change type under the fix.
pub fn return_keeps_type(hir: &Hir, call: usize) -> (r: bool)
    requires
        hir.wf(),
        hir.has(call),
    ensures
        r == keeps_type(*hir, call),
{
    proof {
        assert(hir.node_wf(call));
    }
    match (hir.nodes[call].call_sig, hir.first_arg(call)) {
        (Some(sig), Some(receiver)) => {
            let self_ty: usize = hir.nodes[receiver].ty;
            proof {
                assert(hir.node_wf(receiver));
            }
            if hir.types[self_ty].has_infer || hir.types[sig.output].has_infer {
                return false;
            }
            let count: usize = hir.types.len();
            assert(sig.output < count);
            let mut list: Vec<usize> = Vec::new();
            list.push(sig.output);
            proof {
                assert(list@ =~= seq![sig.output]);
            }
            !any_mentions(hir, &list, sig.output + 1, self_ty)
        },
        _ => false,
    }
}

/// A `&self` method that every signal has, or one of `Computed` itself.
pub open spec fn signal_method(hir: Hir, sig: CallSig) -> bool {
    sig.ref_self && match sig.home {
        Home::Trait(def) => hir.def_in(def, seq![Known::SignalTrait, Known::SignalExtTrait]),
        Home::Inherent(Some(def)) => hir.is_def(def, Known::Computed),
        _ => false,
    }
}

/// Whether the method is a `&self` `Signal`/`SignalExt` method or an inherent
/// `&self` method of `Computed`: a use every signal supports, so the receiver's
/// erasure is not load-bearing.
pub fn ref_self_signal_method(hir: &Hir, sig: CallSig) -> (r: bool)
    ensures
        r == signal_method(*hir, sig),
{
    if !sig.ref_self {
        return false;
    }
    match sig.home {
        Home::Trait(def) => hir.def_path_in(def, &[Known::SignalTrait, Known::SignalExtTrait]),
        Home::Inherent(Some(def)) => hir.def_path_eq(def, Known::Computed),
        _ => false,
    }
}

/// A use at operand `index` of the call keeps compiling after the rewrite.
pub open spec fn use_ok(hir: Hir, call: usize, index: int) -> bool {
    if index == 0 && hir.kind(call) is MethodCall {
        hir.node(call).call_sig matches Some(sig) && signal_method(hir, sig) && keeps_type(
            hir,
            call,
        )
    } else {
        accepts_signal(hir, call, index)
    }
}

fn is_method_call(hir: &Hir, n: usize) -> (r: bool)
    requires
        hir.has(n),
    ensures
        r == (hir.kind(n) is MethodCall),
{
    match &hir.nodes[n].kind {
        Kind::MethodCall { .. } => true,
        _ => false,
    }
}

/// Whether a use of the erased value at operand `index` keeps compiling after
/// the rewrite: a signal-accepting parameter or, for a method receiver, a
/// `&self` signal method whose return type does not change with `Self`.
pub fn arg_use_ok(hir: &Hir, call: usize, index: usize) -> (r: bool)
    requires
        hir.wf(),
        hir.has(call),
    ensures
        r == use_ok(*hir, call, index as int),
{
    if index == 0 && is_method_call(hir, call) {
        match hir.nodes[call].call_sig {
            Some(sig) => ref_self_signal_method(hir, sig) && return_keeps_type(hir, call),
            None => false,
        }
    } else {
        reaches_signal_param(hir, call, index)
    }
}

/// The read of a local is a use that keeps compiling; the locals it is bound to
/// in turn are followed `fuel` times.
pub open spec fn read_ok(hir: Hir, n: usize, fuel: int) -> bool
    decreases fuel, 0int,
{
    match flow_of(hir, n) {
        FlowView::Arg { call, index } => use_ok(hir, call, index),
        FlowView::Bound(bindings) => bindings.len() > 0 && fuel > 0 && bindings_ok(
            hir,
            bindings,
            fuel - 1,
        ),
        FlowView::End => false,
    }
}

/// Every one of the bindings is read, and every read of it keeps compiling.
pub open spec fn bindings_ok(hir: Hir, bindings: Seq<usize>, fuel: int) -> bool
    decreases fuel, 2int, bindings.len(),
{
    if bindings.len() == 0 {
        true
    } else {
        bindings_ok(hir, bindings.drop_last(), fuel) && binding_read(hir, bindings.last())
            && reads_ok(hir, bindings.last(), hir.nodes@.len() as int, fuel)
    }
}

/// The local is read.
pub open spec fn binding_read(hir: Hir, local: usize) -> bool {
    exists|n: usize| hir.has(n) && #[trigger] hir.local(n) == Some(local)
}

/// Every read of the local among the first `n` nodes keeps compiling.
pub open spec fn reads_ok(hir: Hir, local: usize, n: int, fuel: int) -> bool
    decreases fuel, 1int, n,
{
    if n <= 0 {
        true
    } else {
        reads_ok(hir, local, n - 1, fuel) && (hir.local((n - 1) as usize) == Some(local) ==> read_ok(
            hir,
            (n - 1) as usize,
            fuel,
        ))
    }
}

proof fn lemma_reads_fail(hir: Hir, local: usize, m: int, n: int, fuel: int)
    requires
        m <= n,
        !reads_ok(hir, local, m, fuel),
    ensures
        !reads_ok(hir, local, n, fuel),
    decreases n,
{
    if m < n {
        lemma_reads_fail(hir, local, m, n - 1, fuel);
    }
}

proof fn lemma_bindings_fail(hir: Hir, bindings: Seq<usize>, n: int, fuel: int)
    requires
        0 <= n <= bindings.len(),
        !bindings_ok(hir, bindings.take(n), fuel),
    ensures
        !bindings_ok(hir, bindings, fuel),
    decreases bindings.len() - n,
{
    if n == bindings.len() {
        assert(bindings.take(n) =~= bindings);
    } else {
        assert(bindings.take(n + 1).drop_last() =~= bindings.take(n));
        lemma_bindings_fail(hir, bindings, n + 1, fuel);
    }
}

fn is_read_ok(hir: &Hir, n: usize, fuel: usize) -> (r: bool)
    requires
        hir.wf(),
        hir.has(n),
    ensures
        r == read_ok(*hir, n, fuel as int),
    decreases fuel, 0int,
{
    match flow(hir, n) {
        Flow::Arg { call, index } => arg_use_ok(hir, call, index),
        Flow::Bound(bindings) => if bindings.len() > 0 && fuel > 0 {
            binding_uses_ok(hir, &bindings, fuel - 1)
        } else {
            false
        },
        Flow::End => false,
    }
}

fn check_reads(hir: &Hir, local: usize, fuel: usize) -> (r: bool)
    requires
        hir.wf(),
    ensures
        r == (binding_read(*hir, local) && reads_ok(
            *hir,
            local,
            hir.nodes@.len() as int,
            fuel as int,
        )),
    decreases fuel, 1int,
{
    let mut used: bool = false;
    let mut n: usize = 0;
    while n < hir.nodes.len()
        invariant
            n <= hir.nodes.len(),
            hir.wf(),
            used == (exists|k: usize| k < n && #[trigger] hir.local(k) == Some(local)),
            reads_ok(*hir, local, n as int, fuel as int),
        decreases hir.nodes.len() - n,
    {
        if let Some(id) = hir.res_local(n) {
            if id == local {
                used = true;
                if !is_read_ok(hir, n, fuel) {
                    proof {
                        assert(!reads_ok(*hir, local, n + 1, fuel as int));
                        lemma_reads_fail(
                            *hir,
                            local,
                            n + 1,
                            hir.nodes@.len() as int,
                            fuel as int,
                        );
                    }
                    return false;
                }
            }
        }
        n = n + 1;
    }
    used
}

/// Whether every use of the locals is a signal-accepting position: the only
/// shape under which dropping the erasure keeps every consumer compiling. Uses
/// inside nested closures count too. Fails when a local is never used: a dead
/// erasure is not this lint's case.
pub fn binding_uses_ok(hir: &Hir, bindings: &Vec<usize>, fuel: usize) -> (r: bool)
    requires
        hir.wf(),
    ensures
        r == bindings_ok(*hir, bindings@, fuel as int),
    decreases fuel, 2int,
{
    let mut i: usize = 0;
    proof {
        assert(bindings@.take(0) =~= seq![]);
    }
    while i < bindings.len()
        invariant
            i <= bindings.len(),
            hir.wf(),
            bindings_ok(*hir, bindings@.take(i as int), fuel as int),
        decreases bindings.len() - i,
    {
        proof {
            assert(bindings@.take(i + 1).drop_last() =~= bindings@.take(i as int));
            assert(bindings@.take(i + 1).last() == bindings@[i as int]);
        }
        if !check_reads(hir, bindings[i], fuel) {
            proof {
                lemma_bindings_fail(*hir, bindings@, i + 1, fuel as int);
            }
            return false;
        }
        i = i + 1;
    }
    proof {
        assert(bindings@.take(bindings.len() as int) =~= bindings@);
    }
    true
}

/// How far the suggestion for an erasure can be trusted, and whether the result
/// lands somewhere it moves by value.
pub open spec fn verdict_of(hir: Hir, n: usize) -> Option<(Applicability, bool)> {
    match flow_of(hir, n) {
        FlowView::Arg { call, index } => if use_ok(hir, call, index) {
            Some(
                (
                    Applicability::MachineApplicable,
                    !(index == 0 && hir.kind(call) is MethodCall),
                ),
            )
        } else {
            None
        },
        FlowView::Bound(bindings) => if bindings.len() > 0 && bindings_ok(
            hir,
            bindings,
            hir.nodes@.len() as int,
        ) {
            Some((Applicability::MaybeIncorrect, true))
        } else {
            None
        },
        FlowView::End => None,
    }
}

/// The suggestion's applicability for the erasure, and whether the result lands
/// somewhere it moves by value; it does not at a `&self` method receiver, which
/// keeps the signal borrowed. Machine-applicable when the result is a direct
/// signal-accepting argument, less when it reaches one through a local (whose
/// inferred type changes), nothing when the result escapes some other way.
pub fn verdict(hir: &Hir, n: usize) -> (r: Option<(Applicability, bool)>)
    requires
        hir.wf(),
        hir.has(n),
    ensures
        r == verdict_of(*hir, n),
{
    match flow(hir, n) {
        Flow::Arg { call, index } => if arg_use_ok(hir, call, index) {
            Some((Applicability::MachineApplicable, !(index == 0 && is_method_call(hir, call))))
        } else {
            None
        },
        Flow::Bound(bindings) => if bindings.len() > 0 && binding_uses_ok(
            hir,
            &bindings,
            hir.nodes.len(),
        ) {
            Some((Applicability::MaybeIncorrect, true))
        } else {
            None
        },
        Flow::End => None,
    }
}

/// The expression without the `&`s around it.
pub open spec fn unreferenced(hir: Hir, n: usize) -> usize
    decreases n,
{
    match hir.kind(n) {
        Kind::AddrOf { mutable: _, raw: _, operand } => if operand < n {
            unreferenced(hir, operand)
        } else {
            n
        },
        _ => n,
    }
}

/// The signal a call-form erasure wraps: `e` for `Computed::new(e)` and
/// `IntoComputed::into_computed(e)`; the referent for `&e` in
/// `SignalExt::computed(&e)`.
pub fn unwrap_receiver_refs(hir: &Hir, n: usize) -> (r: usize)
    requires
        hir.wf(),
        hir.has(n),
    ensures
        r == unreferenced(*hir, n),
        r <= n,
    decreases n,
{
    match &hir.nodes[n].kind {
        Kind::AddrOf { operand, .. } => {
            proof {
                assert(hir.node_wf(n));
            }
            unwrap_receiver_refs(hir, *operand)
        },
        _ => n,
    }
}

/// What is said of `x.computed()` or `x.into_computed()`.
pub open spec fn method_finding(hir: Hir, n: usize, name: Seq<char>, receiver: usize) -> Option<
    DiagnosticView,
> {
    let span = hir.node(n).span;
    let lo = hir.node(receiver).span.hi;
    match verdict_of(hir, n) {
        Some((applicability, moves)) => {
            let clone = hir.resolves_item(n, Known::SignalComputed) && receiver::cloned(
                hir,
                n,
                receiver,
                moves,
            );
            if hir.node(receiver).span.expanded() || !hir.resolves(
                n,
                seq![Known::SignalComputed, Known::IntoComputedFn],
            ) || !computed::erases(hir, n, receiver) {
                None
            } else {
                Some(
                    DiagnosticView::bare(Lint::NeedlessComputed, span, message()).with(
                        RemarkView::Suggestion {
                            label: if clone {
                                "replace the `."@ + name + "()` with `.clone()`"@
                            } else {
                                "drop the `."@ + name + "()`"@
                            },
                            span: span.from_lo(lo),
                            code: if clone {
                                ".clone()"@
                            } else {
                                ""@
                            },
                            applicability: applicability.guarded(hir.source_from(n, lo)),
                        },
                    ),
                )
            }
        },
        None => None,
    }
}

/// What is said of `Computed::new(e)` and the like.
pub open spec fn call_finding(hir: Hir, n: usize, arg: usize) -> Option<DiagnosticView> {
    let span = hir.node(n).span;
    let signal = unreferenced(hir, arg);
    match verdict_of(hir, n) {
        Some((applicability, moves)) => {
            let clone = hir.resolves_item(n, Known::SignalComputed) && receiver::cloned(
                hir,
                n,
                signal,
                moves,
            );
            if !hir.resolves(
                n,
                seq![Known::ComputedNew, Known::SignalComputed, Known::IntoComputedFn],
            ) || hir.node(signal).span.expanded() || !computed::erases(hir, n, signal) {
                None
            } else {
                let finding = DiagnosticView::bare(Lint::NeedlessComputed, span, message());
                Some(
                    match hir.node(signal).sugg {
                        Some(sugg) => finding.with(
                            RemarkView::Suggestion {
                                label: "use the signal directly"@,
                                span,
                                code: if clone {
                                    sugg.operand@ + ".clone()"@
                                } else {
                                    sugg.operand@
                                },
                                applicability: applicability.guarded(hir.source(n)),
                            },
                        ),
                        None => finding,
                    },
                )
            }
        },
        None => None,
    }
}

/// What is said of an expression.
pub open spec fn finding_at(hir: Hir, n: usize) -> Option<DiagnosticView> {
    if hir.node(n).span.expanded() {
        None
    } else {
        match hir.kind(n) {
            Kind::MethodCall { name, receiver, args } => if args@.len() == 0 {
                method_finding(hir, n, name.name@, receiver)
            } else {
                None
            },
            Kind::Call { func: _, args } => if args@.len() == 1 {
                call_finding(hir, n, args@[0])
            } else {
                None
            },
            _ => None,
        }
    }
}

fn check_method(hir: &Hir, n: usize, name: &str, receiver: usize) -> (r: Option<Diagnostic>)
    requires
        hir.wf(),
        hir.has(n),
        hir.has(receiver),
    ensures
        diagnostics::found(r) == method_finding(*hir, n, name@, receiver),
{
    if hir.nodes[receiver].span.from_expansion() || !hir.resolves_to(
        n,
        &[Known::SignalComputed, Known::IntoComputedFn],
    ) || !computed::erases_signal(hir, n, receiver) {
        return None;
    }
    let (applicability, moves) = match verdict(hir, n) {
        Some(found) => found,
        None => {
            return None;
        },
    };
    // `computed(&self)` only borrows the receiver: deleting the call hands it to
    // the consumer by value, so a place that must not move is cloned instead.
    let clone: bool = hir.resolves_of(n, Known::SignalComputed)
        && receiver::receiver_needs_clone(hir, n, receiver, moves);
    let span: Span = hir.nodes[n].span;
    let lo: u32 = hir.nodes[receiver].span.hi;
    proof {
        assert(hir.node_wf(n));
    }
    let guarded: Applicability = diagnostics::comment_guard(
        &hir.snippet_from(n, lo),
        applicability,
    );
    let label: String = if clone {
        text::cat3("replace the `.", name, "()` with `.clone()`")
    } else {
        text::cat3("drop the `.", name, "()`")
    };
    let mut finding: Diagnostic = Diagnostic::bare(
        Lint::NeedlessComputed,
        span,
        "this `computed()` erases a signal that every consumer already accepts",
    );
    finding.span_suggestion(
        span.with_lo(lo),
        label.as_str(),
        (if clone {
            ".clone()"
        } else {
            ""
        }).to_owned(),
        guarded,
    );
    Some(finding)
}

fn check_call(hir: &Hir, n: usize, arg: usize) -> (r: Option<Diagnostic>)
    requires
        hir.wf(),
        hir.has(n),
        hir.has(arg),
    ensures
        diagnostics::found(r) == call_finding(*hir, n, arg),
{
    let signal: usize = unwrap_receiver_refs(hir, arg);
    if !hir.resolves_to(n, &[Known::ComputedNew, Known::SignalComputed, Known::IntoComputedFn])
        || hir.nodes[signal].span.from_expansion() || !computed::erases_signal(hir, n, signal) {
        return None;
    }
    let (applicability, moves) = match verdict(hir, n) {
        Some(found) => found,
        None => {
            return None;
        },
    };
    let span: Span = hir.nodes[n].span;
    let mut finding: Diagnostic = Diagnostic::bare(
        Lint::NeedlessComputed,
        span,
        "this `computed()` erases a signal that every consumer already accepts",
    );
    if let Some(sugg) = &hir.nodes[signal].sugg {
        let clone: bool = hir.resolves_of(n, Known::SignalComputed)
            && receiver::receiver_needs_clone(hir, n, signal, moves);
        let code: String = if clone {
            text::cat(sugg.operand.as_str(), ".clone()")
        } else {
            sugg.operand.clone()
        };
        proof {
            assert(hir.node_wf(n));
        }
        let guarded: Applicability = diagnostics::comment_guard(
            &hir.nodes[n].snippet,
            applicability,
        );
        finding.span_suggestion(span, "use the signal directly", code, guarded);
    }
    Some(finding)
}

/// Flags `signal.computed()`, `signal.into_computed()`, and
/// `Computed::new(signal)` when the result only ever reaches a parameter that
/// already accepts any signal.
pub fn check_expr(hir: &Hir, n: usize) -> (r: Option<Diagnostic>)
    requires
        hir.wf(),
        hir.has(n),
    ensures
        diagnostics::found(r) == finding_at(*hir, n),
{
    if hir.nodes[n].span.from_expansion() {
        return None;
    }
    proof {
        assert(hir.node_wf(n));
    }
    match &hir.nodes[n].kind {
        Kind::MethodCall { name, receiver, args } => if args.len() == 0 {
            check_method(hir, n, name.name.as_str(), *receiver)
        } else {
            None
        },
        Kind::Call { args, .. } => if args.len() == 1 {
            check_call(hir, n, args[0])
        } else {
            None
        },
        _ => None,
    }
}

proof fn lemma_bindings_read(hir: Hir, bindings: Seq<usize>, i: int, fuel: int)
    requires
        0 <= i < bindings.len(),
        bindings_ok(hir, bindings, fuel),
    ensures
        binding_read(hir, bindings[i]),
        reads_ok(hir, bindings[i], hir.nodes@.len() as int, fuel),
    decreases bindings.len(),
{
    if i < bindings.len() - 1 {
        lemma_bindings_read(hir, bindings.drop_last(), i, fuel);
    }
}

/// An erasure bound to a local that nothing reads, or that some read keeps from
/// being any other signal, is left alone.
pub proof fn erasures_with_other_readers_are_left_alone(
    hir: Hir,
    n: usize,
    bindings: Seq<usize>,
    i: int,
)
    requires
        hir.wf(),
        flow_of(hir, n) == FlowView::Bound(bindings),
        0 <= i < bindings.len(),
        !binding_read(hir, bindings[i]) || !reads_ok(
            hir,
            bindings[i],
            hir.nodes@.len() as int,
            hir.nodes@.len() as int,
        ),
    ensures
        finding_at(hir, n) is None,
{
    let fuel = hir.nodes@.len() as int;
    if bindings_ok(hir, bindings, fuel) {
        lemma_bindings_read(hir, bindings, i, fuel);
    }
    assert(verdict_of(hir, n) is None);
}

/// An erasure that is dropped leaves the signal that it erased, whose output is
/// the erased type's: the method call goes from the end of its receiver on, and
/// a call of the function form becomes the operand itself; where the signal is
/// still needed a clone of it stands in.
pub proof fn dropped_erasures_leave_their_signal(hir: Hir, n: usize) -> (signal: usize)
    requires
        finding_at(hir, n) is Some,
    ensures
        verdict_of(hir, n) is Some,
        hir.ty_arg(hir.node(n).ty, Known::Computed, 0) matches Some(output) && hir.expr_ty(
            signal,
        ).output == Some(output) && hir.expr_ty(signal).known_signal(),
        ({
            let finding = finding_at(hir, n)->0;
            &&& finding.span == hir.node(n).span
            &&& match hir.kind(n) {
                Kind::MethodCall { name: _, receiver, args } => {
                    &&& args@.len() == 0
                    &&& signal == receiver
                    &&& finding.remarks.len() == 1
                    &&& finding.remarks[0] matches RemarkView::Suggestion {
                        label: _,
                        span,
                        code,
                        applicability: _,
                    }
                    &&& span == hir.node(n).span.from_lo(hir.node(receiver).span.hi)
                    &&& code == ""@ || code == ".clone()"@
                },
                Kind::Call { func: _, args } => {
                    &&& args@.len() == 1
                    &&& signal == unreferenced(hir, args@[0])
                    &&& finding.remarks.len() > 0 ==> (hir.node(signal).sugg matches Some(sugg) && (
                    finding.remarks[0] matches RemarkView::Suggestion {
                        label: _,
                        span,
                        code,
                        applicability: _,
                    } && span == hir.node(n).span && (code == sugg.operand@ || code == sugg.operand@
                        + ".clone()"@)))
                },
                _ => false,
            }
        }),
{
    match hir.kind(n) {
        Kind::MethodCall { name: _, receiver, args: _ } => receiver,
        Kind::Call { func: _, args } => unreferenced(hir, args@[0]),
        _ => 0,
    }
}

/// An argument accepts any signal exactly where its parameter is bounded by one of
/// the signal traits and by nothing else.
pub proof fn signal_parameters_accept_any_signal(
    hir: Hir,
    call: usize,
    index: int,
    bounds: Vec<Vec<Bound>>,
)
    requires
        hir.node(call).bounds == Some(bounds),
        0 <= index < bounds@.len(),
    ensures
        ({
            let signals = seq![
                Known::IntoComputedTrait,
                Known::IntoSignalTrait,
                Known::SignalTrait,
                Known::IntoSignalF32,
            ];
            let list = bounds@[index]@;
            accepts_signal(hir, call, index) <==> (exists|k: int|
                0 <= k < list.len() && hir.def_in((#[trigger] list[k]).def, signals)) && (forall|
                k: int,
            |
                0 <= k < list.len() ==> hir.def_in((#[trigger] list[k]).def, signals) || hir.is_def(
                    list[k].def,
                    Known::SizedTrait,
                ))
        }),
{
    assert(any_signal() =~= seq![
        Known::IntoComputedTrait,
        Known::IntoSignalTrait,
        Known::SignalTrait,
        Known::IntoSignalF32,
    ]);
}

/// An erasure goes only where every use of its value takes a signal: the one call
/// that takes it, or, where names keep it, every read of every one of them.
pub proof fn every_use_takes_the_signal(hir: Hir, n: usize, local: usize, m: usize, fuel: int)
    ensures
        flow_of(hir, n) matches FlowView::Arg { call, index } ==> (verdict_of(hir, n) is Some
            <==> use_ok(hir, call, index)),
        flow_of(hir, n) is End ==> verdict_of(hir, n) is None,
        hir.has(m) && hir.local(m) == Some(local) && reads_ok(
            hir,
            local,
            hir.nodes@.len() as int,
            fuel,
        ) ==> read_ok(hir, m, fuel),
{
    if hir.has(m) && hir.local(m) == Some(local) && reads_ok(
        hir,
        local,
        hir.nodes@.len() as int,
        fuel,
    ) {
        assert(hir.nodes@.len() == hir.nodes.len());
        lemma_each_read(hir, local, hir.nodes@.len() as int, m, fuel);
    }
}

proof fn lemma_each_read(hir: Hir, local: usize, n: int, m: usize, fuel: int)
    requires
        m < n <= usize::MAX,
        hir.local(m) == Some(local),
        reads_ok(hir, local, n, fuel),
    ensures
        read_ok(hir, m, fuel),
    decreases n,
{
    if m < n - 1 {
        lemma_each_read(hir, local, n - 1, m, fuel);
    }
}

} // verus!
