//! `needless_signal_cast`: `.map(|v| v as f32)`-style conversions on a signal
//! that only ever reaches an `impl IntoSignalF32` parameter.

use crate::diagnostics;
use crate::diagnostics::{Applicability, Diagnostic, DiagnosticView, RemarkView};
use crate::hir::{DefKind, Hir, Kind, Res, Span, Trait, TyKind};
use crate::known::Known;
use crate::lint::Lint;
use crate::receiver;
use crate::manual_identifiable;
use crate::manual_signal_combinator;
use vstd::prelude::*;

verus! {

pub open spec fn message() -> Seq<char> {
    "this conversion is performed by the `impl IntoSignalF32` parameter; pass the signal as it is"@
}

/// The type is `f32`.
pub open spec fn float32(hir: Hir, t: usize) -> bool {
    hir.ty(t).kind matches TyKind::Float { bits } && bits == 32
}

/// Whether the type is `f32`.
pub fn is_f32(hir: &Hir, t: usize) -> (r: bool)
    requires
        t < hir.types.len(),
    ensures
        r == float32(*hir, t),
{
    match &hir.types[t].kind {
        TyKind::Float { bits } => *bits == 32,
        _ => false,
    }
}

/// The expression names an associated function.
pub open spec fn assoc_path(hir: Hir, n: usize) -> bool {
    match hir.kind(n) {
        Kind::Path { plain: _, segments: _, res: Res::Def { def: _, kind } } => kind is AssocFn,
        _ => false,
    }
}

fn is_assoc_path(hir: &Hir, n: usize) -> (r: bool)
    requires
        hir.has(n),
    ensures
        r == assoc_path(*hir, n),
{
    match &hir.nodes[n].kind {
        Kind::Path { res: Res::Def { kind, .. }, .. } => *kind == DefKind::AssocFn,
        _ => false,
    }
}

/// The expression is the local.
pub open spec fn reads(hir: Hir, n: usize, local: usize) -> bool {
    hir.local(n) == Some(local)
}

/// A body that converts `param` to `f32` and does nothing more.
pub open spec fn converts(hir: Hir, body: usize, param: usize) -> bool {
    float32(hir, hir.node(body).ty) && match hir.kind(body) {
        Kind::Cast { operand } => reads(hir, operand, param),
        Kind::Call { func, args } => args@.len() == 1 && reads(hir, args@[0], param) && assoc_path(
            hir,
            func,
        ) && hir.resolves(body, seq![Known::From, Known::IntoF32Fn]),
        Kind::MethodCall { name: _, receiver, args } => if args@.len() > 0 {
            false
        } else if hir.resolves_item(body, Known::Into) {
            reads(hir, receiver, param)
        } else if hir.resolves_item(body, Known::OptionUnwrap) {
            match hir.kind(receiver) {
                Kind::MethodCall { name: _, receiver: inner, args: more } => more@.len() == 0
                    && reads(hir, inner, param) && hir.resolves_item(receiver, Known::ToF32),
                _ => false,
            }
        } else {
            false
        },
        _ => false,
    }
}

fn is_read(hir: &Hir, n: usize, local: usize) -> (r: bool)
    requires
        hir.has(n),
    ensures
        r == reads(*hir, n, local),
{
    match hir.res_local(n) {
        Some(id) => id == local,
        None => false,
    }
}

/// Whether the closure body is a conversion of the parameter to `f32` and
/// nothing more: `v as f32`, `f32::from(v)`, `IntoF32::into_f32(v)`, `v.into()`
/// when `f32` is inferred, `v.to_f32().unwrap()`. Arithmetic, a `.clamp(..)`, or
/// a second call over the conversion fails the match: those read the cast value,
/// which the parameter does not reproduce.
pub fn pure_f32_conversion(hir: &Hir, body: usize, param: usize) -> (r: bool)
    requires
        hir.wf(),
        hir.has(body),
    ensures
        r == converts(*hir, body, param),
{
    proof {
        assert(hir.node_wf(body));
    }
    if !is_f32(hir, hir.nodes[body].ty) {
        return false;
    }
    match &hir.nodes[body].kind {
        Kind::Cast { operand } => is_read(hir, *operand, param),
        Kind::Call { func, args } => args.len() == 1 && is_read(hir, args[0], param)
            && is_assoc_path(hir, *func) && hir.resolves_to(
            body,
            &[Known::From, Known::IntoF32Fn],
        ),
        Kind::MethodCall { receiver, args, .. } => {
            if args.len() > 0 {
                return false;
            }
            if hir.resolves_of(body, Known::Into) {
                return is_read(hir, *receiver, param);
            }
            if !hir.resolves_of(body, Known::OptionUnwrap) {
                return false;
            }
            proof {
                assert(hir.node_wf(*receiver));
            }
            match &hir.nodes[*receiver].kind {
                Kind::MethodCall { receiver: inner, args: more, .. } => more.len() == 0 && is_read(
                    hir,
                    *inner,
                    param,
                ) && hir.resolves_of(*receiver, Known::ToF32),
                _ => false,
            }
        },
        _ => false,
    }
}

/// What a conversion function given straight to `map` converts from.
pub open spec fn fn_input(hir: Hir, func: usize) -> Option<usize> {
    match hir.node(func).fn_sig {
        Some(sig) => if assoc_path(hir, func) && hir.names(
            func,
            seq![Known::From, Known::IntoF32Fn],
        ) && sig.inputs@.len() == 1 && sig.inputs@[0] < hir.types@.len() && sig.output
            < hir.types@.len() && float32(hir, sig.output) {
            Some(sig.inputs@[0])
        } else {
            None
        },
        None => None,
    }
}

/// The input that a function path like `f32::from` or `IntoF32::into_f32` given
/// straight to `map` converts from, when it is one of the named conversions and
/// its signature maps one argument to `f32`.
pub fn conversion_fn_input(hir: &Hir, func: usize) -> (r: Option<usize>)
    requires
        hir.has(func),
    ensures
        r == fn_input(*hir, func),
        r matches Some(t) ==> t < hir.types.len(),
{
    if !is_assoc_path(hir, func) || !hir.is_named(func, &[Known::From, Known::IntoF32Fn]) {
        return None;
    }
    match &hir.nodes[func].fn_sig {
        Some(sig) => if sig.inputs.len() == 1 && sig.inputs[0] < hir.types.len() && sig.output
            < hir.types.len() && is_f32(hir, sig.output) {
            Some(sig.inputs[0])
        } else {
            None
        },
        None => None,
    }
}

/// Where a signal value ends up.
#[derive(Clone, Copy, Debug, PartialEq, Eq, Structural)]
pub enum Sink {
    /// At operand `index` of `call`, through adapters.
    Arg { call: usize, index: usize },
    /// It initializes the `let`, through adapters.
    Let(usize),
    /// Consumed any other way.
    End,
}

/// `SignalExt` adapters that keep the mapped value: `.with(..)` attaches
/// metadata, `.cached()` and `.computed()` rewrap the same output, and
/// `.clone()` copies the cheap handle. A `map`, `zip` or transform is absent: it
/// changes the value, so the cast stays observable through it.
pub open spec fn keeping_adapters() -> Seq<Known> {
    seq![Known::SignalWith, Known::SignalCached, Known::SignalComputed, Known::Clone]
}

/// Where the value of `n` ends up.
pub open spec fn sink_of(hir: Hir, n: usize) -> Sink
    decreases hir.nodes@.len() - n,
{
    match hir.up(n) {
        Some(p) => if hir.kind(p) is DropTemps {
            sink_of(hir, p)
        } else if hir.is_call(p) {
            match hir.operand_place(p, n) {
                Some(index) => if index == 0 && hir.resolves(p, keeping_adapters()) {
                    sink_of(hir, p)
                } else {
                    Sink::Arg { call: p, index: index as usize }
                },
                None => Sink::End,
            }
        } else {
            match hir.kind(p) {
                Kind::LetStmt { pat: _, ty: _, init, els: _ } => if init == Some(n) {
                    Sink::Let(p)
                } else {
                    Sink::End
                },
                _ => Sink::End,
            }
        },
        None => Sink::End,
    }
}

/// Where the signal value ends up: an argument position of a call, the
/// initializer of a `let`, or neither. Drop-temps and the value-keeping adapters
/// are climbed; everything else (a transform like a second `.map`, a field, a
/// scrutinee) ends the walk.
pub fn sink(hir: &Hir, n: usize) -> (r: Sink)
    requires
        hir.wf(),
        hir.has(n),
    ensures
        r == sink_of(*hir, n),
        match r {
            Sink::Arg { call, index } => hir.has(call) && index < hir.operands(call).len(),
            Sink::Let(local) => hir.has(local) && hir.kind(local) is LetStmt,
            Sink::End => true,
        },
    decreases hir.nodes.len() - n,
{
    let p: usize = match hir.parent(n) {
        Some(p) => p,
        None => {
            return Sink::End;
        },
    };
    match &hir.nodes[p].kind {
        Kind::DropTemps { .. } => sink(hir, p),
        Kind::Call { .. } | Kind::MethodCall { .. } => match hir.arg_index(p, n) {
            Some(index) => {
                let adapters: [Known; 4] = [
                    Known::SignalWith,
                    Known::SignalCached,
                    Known::SignalComputed,
                    Known::Clone,
                ];
                proof {
                    assert(adapters@ =~= keeping_adapters());
                }
                if index == 0 && hir.resolves_to(p, &adapters) {
                    sink(hir, p)
                } else {
                    Sink::Arg { call: p, index }
                }
            },
            None => Sink::End,
        },
        Kind::LetStmt { init, .. } => {
            let own: bool = match init {
                Some(init) => *init == n,
                None => false,
            };
            if own {
                Sink::Let(p)
            } else {
                Sink::End
            }
        },
        _ => Sink::End,
    }
}

/// The parameter at `index` is bounded by `IntoSignalF32`.
pub open spec fn takes_f32(hir: Hir, call: usize, index: int) -> bool {
    hir.bounded(call, index, seq![Known::IntoSignalF32])
}

/// Whether the parameter at `index` is bounded by `IntoSignalF32`.
pub fn reaches_f32_param(hir: &Hir, call: usize, index: usize) -> (r: bool)
    requires
        hir.has(call),
    ensures
        r == takes_f32(*hir, call, index as int),
{
    let bounds: [Known; 1] = [Known::IntoSignalF32];
    proof {
        assert(bounds@ =~= seq![Known::IntoSignalF32]);
    }
    hir.arg_has_bound(call, index, &bounds)
}

/// The read lands at an `IntoSignalF32` parameter.
pub open spec fn feeds_f32(hir: Hir, n: usize) -> bool {
    sink_of(hir, n) matches Sink::Arg { call, index } && takes_f32(hir, call, index as int)
}

/// How often the local is read among the first `n` nodes.
pub open spec fn read_count(hir: Hir, local: usize, n: int) -> nat
    decreases n,
{
    if n <= 0 {
        0
    } else {
        read_count(hir, local, n - 1) + (if hir.local((n - 1) as usize) == Some(local) {
            1nat
        } else {
            0nat
        })
    }
}

/// Every read of the local lands at an `IntoSignalF32` parameter.
pub open spec fn only_feeds_f32(hir: Hir, local: usize) -> bool {
    forall|n: usize| hir.has(n) && #[trigger] hir.local(n) == Some(local) ==> feeds_f32(hir, n)
}

/// The local that a `let` binds by a plain name.
pub open spec fn plain_local(hir: Hir, stmt: usize) -> Option<usize> {
    match hir.kind(stmt) {
        Kind::LetStmt { pat, ty: _, init: _, els: _ } => match hir.kind(pat) {
            Kind::Binding { name: _, id, sub: None } => Some(id),
            _ => None,
        },
        _ => None,
    }
}

/// How often the binding of a `let` is read, where it is and every read lands at
/// an `IntoSignalF32` parameter.
pub open spec fn let_feeds(hir: Hir, stmt: usize) -> Option<nat> {
    match plain_local(hir, stmt) {
        Some(local) => {
            let count = read_count(hir, local, hir.nodes@.len() as int);
            if count > 0 && only_feeds_f32(hir, local) {
                Some(count)
            } else {
                None
            }
        },
        None => None,
    }
}

/// How often the binding of the `let` is read, when every use lands at an
/// `IntoSignalF32` parameter: the only shape under which dropping the `map`
/// keeps every consumer compiling. Uses inside nested closures count too.
/// Nothing when the binding is never used: a dead `map` is not this lint's case.
pub fn let_only_feeds_f32_params(hir: &Hir, stmt: usize) -> (r: Option<usize>)
    requires
        hir.wf(),
        hir.has(stmt),
    ensures
        match r {
            Some(count) => let_feeds(*hir, stmt) == Some(count as nat),
            None => let_feeds(*hir, stmt) is None,
        },
{
    proof {
        assert(hir.node_wf(stmt));
    }
    let local: usize = match &hir.nodes[stmt].kind {
        Kind::LetStmt { pat, .. } => match &hir.nodes[*pat].kind {
            Kind::Binding { id, sub: None, .. } => *id,
            _ => {
                return None;
            },
        },
        _ => {
            return None;
        },
    };
    let mut count: usize = 0;
    let mut n: usize = 0;
    while n < hir.nodes.len()
        invariant
            n <= hir.nodes.len(),
            hir.wf(),
            count <= n,
            plain_local(*hir, stmt) == Some(local),
            count == read_count(*hir, local, n as int),
            forall|k: usize| k < n && #[trigger] hir.local(k) == Some(local) ==> feeds_f32(*hir, k),
        decreases hir.nodes.len() - n,
    {
        if is_read(hir, n, local) {
            let ok: bool = match sink(hir, n) {
                Sink::Arg { call, index } => reaches_f32_param(hir, call, index),
                _ => false,
            };
            if !ok {
                assert(hir.local(n) == Some(local) && !feeds_f32(*hir, n));
                return None;
            }
            count = count + 1;
        }
        n = n + 1;
    }
    if count > 0 {
        Some(count)
    } else {
        None
    }
}

/// What a function given to `map` converts to `f32` from.
pub open spec fn converted_from(hir: Hir, func: usize) -> Option<usize> {
    let func = hir.evaluated(func);
    match hir.kind(func) {
        Kind::Closure { params, body, by_move: _ } => if params@.len() == 1 {
            match manual_identifiable::pat_of(hir, params@[0]) {
                Some(pat) => match hir.kind(pat) {
                    Kind::Binding { name: _, id, sub: None } => if converts(
                        hir,
                        hir.evaluated(body),
                        id,
                    ) {
                        Some(hir.node(pat).ty)
                    } else {
                        None
                    },
                    _ => None,
                },
                None => None,
            }
        } else {
            None
        },
        Kind::Path { .. } => fn_input(hir, func),
        _ => None,
    }
}

fn conversion_input(hir: &Hir, func: usize) -> (r: Option<usize>)
    requires
        hir.wf(),
        hir.has(func),
    ensures
        r == converted_from(*hir, func),
        r matches Some(t) ==> t < hir.types.len(),
{
    let func: usize = hir.body_expr(func);
    proof {
        assert(hir.node_wf(func));
    }
    match &hir.nodes[func].kind {
        Kind::Closure { params, body, .. } => {
            if params.len() != 1 {
                return None;
            }
            let param: usize = params[0];
            proof {
                assert(hir.node_wf(param));
            }
            let pat: usize = match &hir.nodes[param].kind {
                Kind::Param { pat } => *pat,
                _ => {
                    return None;
                },
            };
            proof {
                assert(hir.node_wf(pat));
            }
            match &hir.nodes[pat].kind {
                Kind::Binding { id, sub: None, .. } => if pure_f32_conversion(
                    hir,
                    hir.body_expr(*body),
                    *id,
                ) {
                    Some(hir.nodes[pat].ty)
                } else {
                    None
                },
                _ => None,
            }
        },
        Kind::Path { .. } => conversion_fn_input(hir, func),
        _ => None,
    }
}

/// How far removing the map can be trusted, and whether its call is what is
/// handed on itself.
pub open spec fn removal(hir: Hir, n: usize) -> Option<(Applicability, bool)> {
    match sink_of(hir, n) {
        Sink::Arg { call, index } => if takes_f32(hir, call, index as int) {
            Some(
                (
                    Applicability::MachineApplicable,
                    hir.evaluated(hir.operands(call)[index as int]) == n,
                ),
            )
        } else {
            None
        },
        Sink::Let(stmt) => match (hir.kind(stmt), let_feeds(hir, stmt)) {
            (Kind::LetStmt { pat: _, ty: None, init: Some(init), els: _ }, Some(count)) => Some(
                (
                    if count == 1 {
                        Applicability::MachineApplicable
                    } else {
                        Applicability::MaybeIncorrect
                    },
                    hir.evaluated(init) == n,
                ),
            ),
            _ => None,
        },
        Sink::End => None,
    }
}

fn find_removal(hir: &Hir, n: usize) -> (r: Option<(Applicability, bool)>)
    requires
        hir.wf(),
        hir.has(n),
    ensures
        r == removal(*hir, n),
{
    match sink(hir, n) {
        Sink::Arg { call, index } => if reaches_f32_param(hir, call, index) {
            let args: Vec<usize> = hir.call_args(call);
            Some((Applicability::MachineApplicable, hir.body_expr(args[index]) == n))
        } else {
            None
        },
        Sink::Let(stmt) => {
            proof {
                assert(hir.node_wf(stmt));
            }
            match &hir.nodes[stmt].kind {
                Kind::LetStmt { ty: None, init: Some(init), .. } => {
                    match let_only_feeds_f32_params(hir, stmt) {
                        Some(count) => Some(
                            (
                                if count == 1 {
                                    Applicability::MachineApplicable
                                } else {
                                    Applicability::MaybeIncorrect
                                },
                                hir.body_expr(*init) == n,
                            ),
                        ),
                        None => None,
                    }
                },
                _ => None,
            }
        },
        Sink::End => None,
    }
}

/// What is said of a map that only converts.
pub open spec fn finding_at(hir: Hir, n: usize) -> Option<DiagnosticView> {
    let span = hir.node(n).span;
    match manual_signal_combinator::one_arg_method(hir, n) {
        Some((receiver, func)) => match (converted_from(hir, func), removal(hir, n)) {
            (Some(input), Some((applicability, direct))) => {
                let lo = hir.node(receiver).span.hi;
                let clone = receiver::cloned(hir, n, receiver, direct);
                if span.expanded() || hir.node(receiver).span.expanded() || !hir.resolves_item(
                    n,
                    Known::SignalMap,
                ) || hir.ty(input).has_infer || !hir.ty(input).implements(Trait::IntoF32, seq![]) {
                    None
                } else {
                    Some(
                        DiagnosticView::bare(Lint::NeedlessSignalCast, span, message()).with(
                            RemarkView::Suggestion {
                                label: if clone {
                                    "replace the `.map(..)` conversion with `.clone()`"@
                                } else {
                                    "remove the `.map(..)` conversion"@
                                },
                                span: span.from_lo(lo),
                                code: if clone {
                                    ".clone()"@
                                } else {
                                    ""@
                                },
                                applicability: applicability.guarded(hir.source_from(n, lo)),
                            },
                        ),
                    )
                }
            },
            _ => None,
        },
        None => None,
    }
}

/// Flags `signal.map(..)` calls whose argument is a pure numeric conversion to
/// `f32` when the produced signal only ever reaches an `impl IntoSignalF32`
/// parameter. The fix deletes the `.map(..)` segment; when the receiver is a
/// place that must not be moved, the segment becomes `.clone()` instead.
pub fn check_expr(hir: &Hir, n: usize) -> (r: Option<Diagnostic>)
    requires
        hir.wf(),
        hir.has(n),
    ensures
        diagnostics::found(r) == finding_at(*hir, n),
{
    let span: Span = hir.nodes[n].span;
    if span.from_expansion() {
        return None;
    }
    let (receiver, func) = match manual_signal_combinator::one_arg_method_parts(hir, n) {
        Some(parts) => parts,
        None => {
            return None;
        },
    };
    if hir.nodes[receiver].span.from_expansion() || !hir.resolves_of(n, Known::SignalMap) {
        return None;
    }
    let input: usize = match conversion_input(hir, func) {
        Some(input) => input,
        None => {
            return None;
        },
    };
    if hir.types[input].has_infer || !hir.types[input].implements_trait(Trait::IntoF32) {
        return None;
    }
    let (applicability, direct) = match find_removal(hir, n) {
        Some(found) => found,
        None => {
            return None;
        },
    };
    let clone: bool = receiver::receiver_needs_clone(hir, n, receiver, direct);
    let lo: u32 = hir.nodes[receiver].span.hi;
    proof {
        assert(hir.node_wf(n));
    }
    let guarded: Applicability = diagnostics::comment_guard(
        &hir.snippet_from(n, lo),
        applicability,
    );
    let mut finding: Diagnostic = Diagnostic::bare(
        Lint::NeedlessSignalCast,
        span,
        "this conversion is performed by the `impl IntoSignalF32` parameter; pass the signal as it is",
    );
    finding.span_suggestion(
        span.with_lo(lo),
        if clone {
            "replace the `.map(..)` conversion with `.clone()`"
        } else {
            "remove the `.map(..)` conversion"
        },
        (if clone {
            ".clone()"
        } else {
            ""
        }).to_owned(),
        guarded,
    );
    Some(finding)
}

proof fn lemma_read_count(hir: Hir, local: usize, n: int)
    requires
        0 <= n <= hir.nodes@.len(),
        forall|m: usize| hir.has(m) ==> #[trigger] hir.local(m) != Some(local),
    ensures
        read_count(hir, local, n) == 0,
    decreases n,
{
    if n > 0 {
        lemma_read_count(hir, local, n - 1);
        assert(hir.has((n - 1) as usize));
    }
}

/// A cast bound to a local that nothing reads, or that something reads otherwise
/// than as an `IntoSignalF32` argument, is left alone.
pub proof fn casts_with_other_readers_are_left_alone(hir: Hir, n: usize, stmt: usize, local: usize)
    requires
        hir.wf(),
        sink_of(hir, n) == Sink::Let(stmt),
        plain_local(hir, stmt) == Some(local),
        (forall|m: usize| hir.has(m) ==> #[trigger] hir.local(m) != Some(local)) || exists|
            m: usize,
        | hir.has(m) && #[trigger] hir.local(m) == Some(local) && !feeds_f32(hir, m),
    ensures
        finding_at(hir, n) is None,
{
    if forall|m: usize| hir.has(m) ==> #[trigger] hir.local(m) != Some(local) {
        lemma_read_count(hir, local, hir.nodes@.len() as int);
    }
    assert(let_feeds(hir, stmt) is None);
    assert(removal(hir, n) is None);
}

/// A conversion is taken out only where the parameter makes it itself: the mapped
/// closure or function gives an `f32` for a value that converts to one, and
/// whatever takes the signal takes it as `impl IntoSignalF32`; what goes is the
/// whole call of `map`, from the end of its receiver on.
pub proof fn removed_casts_are_made_anyway(hir: Hir, n: usize)
    ensures
        finding_at(hir, n) matches Some(finding) ==> {
            &&& hir.kind(n) matches Kind::MethodCall { name: _, receiver, args }
            &&& args@.len() == 1
            &&& hir.resolves_item(n, Known::SignalMap)
            &&& finding.remarks.len() == 1
            &&& finding.remarks[0] matches RemarkView::Suggestion {
                label: _,
                span,
                code,
                applicability: _,
            }
            &&& span == hir.node(n).span.from_lo(hir.node(receiver).span.hi)
            &&& code == ""@ || code == ".clone()"@
            &&& {
                ||| sink_of(hir, n) matches Sink::Arg { call, index } && hir.bounded(
                    call,
                    index as int,
                    seq![Known::IntoSignalF32],
                )
                ||| sink_of(hir, n) matches Sink::Let(stmt) && (plain_local(
                    hir,
                    stmt,
                ) matches Some(local) && (exists|m: usize| hir.has(m) && #[trigger] hir.local(m)
                    == Some(local)) && forall|m: usize|
                    hir.has(m) && #[trigger] hir.local(m) == Some(local) ==> (sink_of(
                        hir,
                        m,
                    ) matches Sink::Arg { call, index } && hir.bounded(
                        call,
                        index as int,
                        seq![Known::IntoSignalF32],
                    )))
            }
            &&& {
                let func = hir.evaluated(args@[0]);
                ||| hir.kind(func) matches Kind::Closure { params: _, body, by_move: _ } && (hir.ty(
                    hir.node(hir.evaluated(body)).ty,
                ).kind matches TyKind::Float { bits } && bits == 32)
                ||| hir.node(func).fn_sig matches Some(sig) && (hir.ty(
                    sig.output,
                ).kind matches TyKind::Float { bits } && bits == 32)
            }
        },
{
    if let Some(finding) = finding_at(hir, n) {
        if let Sink::Let(stmt) = sink_of(hir, n) {
            let local = plain_local(hir, stmt)->0;
            assert(hir.nodes.len() == hir.nodes@.len());
            lemma_read_somewhere(hir, local, hir.nodes@.len() as int);
            assert forall|m: usize| hir.has(m) && #[trigger] hir.local(m) == Some(local) implies (
            sink_of(hir, m) matches Sink::Arg { call, index } && hir.bounded(
                call,
                index as int,
                seq![Known::IntoSignalF32],
            )) by {
                assert(feeds_f32(hir, m));
            }
        }
    }
}

proof fn lemma_read_somewhere(hir: Hir, local: usize, n: int)
    requires
        0 <= n <= hir.nodes@.len() <= usize::MAX,
        read_count(hir, local, n) > 0,
    ensures
        exists|m: usize| hir.has(m) && #[trigger] hir.local(m) == Some(local),
    decreases n,
{
    if hir.local((n - 1) as usize) == Some(local) {
        assert(hir.has((n - 1) as usize));
    } else {
        lemma_read_somewhere(hir, local, n - 1);
    }
}

} // verus!
