//! `manual_string_signal`: a `map` that builds a `String`/`Str` signal by hand
//! (`format!`, `+`/`push_str` concatenation, `from`/`to_string` conversions)
//! restates `s!`, nami's reactive `format!`.

use crate::diagnostics;
use crate::diagnostics::{Diagnostic, DiagnosticView, RemarkView};
use crate::format_args;
use crate::format_args::{ArgKind, FormatArg, FormatArgs, Rebuilt};
use crate::hir;
use crate::hir::{BinOp, Hir, Kind, Lit, Span};
use crate::known::Known;
use crate::lint::Lint;
use crate::manual_text_map;
use crate::signal_map;
use crate::signal_map::{Params, ParamsView};
use crate::template;
use crate::text;
use vstd::prelude::*;

verus! {

pub open spec fn message() -> Seq<char> {
    "this `map` builds a string signal by hand; `s!` formats signals directly"@
}

/// What in the body marks the string as built by hand.
#[derive(Clone, Copy, Debug, PartialEq, Eq, Structural)]
pub enum Trigger {
    /// `format!(..)` whose arguments read the parameter.
    Format,
    /// `.to_string()` on parameter-derived text: counts only inside a larger
    /// composition; alone (`|v| v.to_string()`) it is the `map_into` case this
    /// lint leaves silent.
    ToString,
    /// `String::from` or `Str::from` of a formatted or converted value.
    From,
    /// `+` or `+=` producing a string from parameter-derived operands.
    Concat,
    /// `push_str` appending parameter-derived text.
    PushStr,
}

/// The expression starts a `format!(..)` expansion.
pub open spec fn starts_format(hir: Hir, n: usize) -> bool {
    hir.node(n).mac matches Some(mac) && mac.is_format
}

/// Whether the expression is the first node of a `format!(..)` expansion.
pub fn is_format_call(hir: &Hir, n: usize) -> (r: bool)
    requires
        hir.has(n),
    ensures
        r == starts_format(*hir, n),
{
    match hir.nodes[n].mac {
        Some(mac) => mac.is_format,
        None => false,
    }
}

/// The expression is a `format!(..)` or a `to_string`/`to_owned` conversion.
pub open spec fn converting(hir: Hir, n: usize) -> bool {
    starts_format(hir, n) || hir.resolves(n, seq![Known::ToString, Known::ToOwned])
}

/// The expression contains a `format!(..)` or a conversion, closures left out.
pub open spec fn has_conversion(hir: Hir, n: usize) -> bool {
    exists|i: int|
        0 <= i < hir.exprs(n, false).len() && converting(hir, #[trigger] hir.exprs(n, false)[i])
}

/// Whether the argument is a formatted or converted value, so that wrapping it
/// in `String::from` or `Str::from` is string-building, not the `Str::from(v)`
/// plain conversion this lint ignores.
pub fn converts(hir: &Hir, n: usize) -> (r: bool)
    requires
        hir.wf(),
        hir.has(n),
    ensures
        r == has_conversion(*hir, n),
{
    let list: Vec<usize> = hir.exprs_in(n, false);
    let mut i: usize = 0;
    while i < list.len()
        invariant
            i <= list.len(),
            hir.has(n),
            list@ == hir.exprs(n, false),
            hir::all_below(list@, n + 1),
            forall|k: int| 0 <= k < i ==> !converting(*hir, #[trigger] list@[k]),
        decreases list.len() - i,
    {
        if is_format_call(hir, list[i]) || hir.resolves_to(
            list[i],
            &[Known::ToString, Known::ToOwned],
        ) {
            assert(converting(*hir, list@[i as int]));
            return true;
        }
        i = i + 1;
    }
    false
}

/// One of the operands of the call reads a parameter.
pub open spec fn operand_mentions(hir: Hir, n: usize, all: Seq<usize>) -> bool {
    exists|i: int|
        0 <= i < hir.operands(n).len() && signal_map::mentions(
            hir,
            #[trigger] hir.operands(n)[i],
            all,
        )
}

fn operand_touches(hir: &Hir, n: usize, all: &Vec<usize>) -> (r: bool)
    requires
        hir.wf(),
        hir.has(n),
    ensures
        r == operand_mentions(*hir, n, all@),
{
    let args: Vec<usize> = hir.call_args(n);
    let mut i: usize = 0;
    while i < args.len()
        invariant
            i <= args.len(),
            hir.wf(),
            hir.has(n),
            args@ == hir.operands(n),
            hir::all_below(args@, n as int),
            forall|k: int| 0 <= k < i ==> !signal_map::mentions(*hir, #[trigger] args@[k], all@),
        decreases args.len() - i,
    {
        if signal_map::touches_param(hir, args[i], all) {
            assert(signal_map::mentions(*hir, hir.operands(n)[i as int], all@));
            return true;
        }
        i = i + 1;
    }
    false
}

/// How a call builds a string by hand.
pub open spec fn call_trigger(hir: Hir, n: usize, all: Seq<usize>) -> Option<Trigger> {
    if hir.resolves_item(n, Known::ToString) {
        if hir.first_operand(n) matches Some(receiver) && signal_map::mentions(
            hir,
            receiver,
            all,
        ) {
            Some(Trigger::ToString)
        } else {
            None
        }
    } else if hir.resolves_item(n, Known::From) {
        if hir.stringy(hir.node(n).ty) && (hir.first_operand(n) matches Some(arg)
            && has_conversion(hir, arg)) {
            Some(Trigger::From)
        } else {
            None
        }
    } else if hir.resolves_item(n, Known::PushStr) && operand_mentions(hir, n, all) {
        Some(Trigger::PushStr)
    } else {
        None
    }
}

/// How an expression builds a string by hand.
pub open spec fn trigger_at(hir: Hir, n: usize, all: Seq<usize>) -> Option<Trigger> {
    if starts_format(hir, n) && signal_map::mentions(hir, n, all) {
        Some(Trigger::Format)
    } else {
        match hir.kind(n) {
            Kind::Binary { op, lhs: _, rhs: _ } => if op is Add && hir.stringy(hir.node(n).ty)
                && signal_map::mentions(hir, n, all) {
                Some(Trigger::Concat)
            } else {
                None
            },
            Kind::AssignOp { op, lhs, rhs: _ } => if op is Add && hir.stringy(hir.node(lhs).ty)
                && signal_map::mentions(hir, n, all) {
                Some(Trigger::Concat)
            } else {
                None
            },
            Kind::Call { .. } => call_trigger(hir, n, all),
            Kind::MethodCall { .. } => call_trigger(hir, n, all),
            _ => None,
        }
    }
}

fn find_call_trigger(hir: &Hir, n: usize, all: &Vec<usize>) -> (r: Option<Trigger>)
    requires
        hir.wf(),
        hir.has(n),
    ensures
        r == call_trigger(*hir, n, all@),
{
    proof {
        assert(hir.node_wf(n));
    }
    if hir.resolves_of(n, Known::ToString) {
        match hir.first_arg(n) {
            Some(receiver) => if signal_map::touches_param(hir, receiver, all) {
                Some(Trigger::ToString)
            } else {
                None
            },
            None => None,
        }
    } else if hir.resolves_of(n, Known::From) {
        match hir.first_arg(n) {
            Some(arg) => if hir.is_string_ty(hir.nodes[n].ty) && converts(hir, arg) {
                Some(Trigger::From)
            } else {
                None
            },
            None => None,
        }
    } else if hir.resolves_of(n, Known::PushStr) && operand_touches(hir, n, all) {
        Some(Trigger::PushStr)
    } else {
        None
    }
}

fn find_trigger(hir: &Hir, n: usize, all: &Vec<usize>) -> (r: Option<Trigger>)
    requires
        hir.wf(),
        hir.has(n),
    ensures
        r == trigger_at(*hir, n, all@),
{
    if is_format_call(hir, n) && signal_map::touches_param(hir, n, all) {
        return Some(Trigger::Format);
    }
    proof {
        assert(hir.node_wf(n));
    }
    match &hir.nodes[n].kind {
        Kind::Binary { op, .. } => if *op == BinOp::Add && hir.is_string_ty(hir.nodes[n].ty)
            && signal_map::touches_param(hir, n, all) {
            Some(Trigger::Concat)
        } else {
            None
        },
        Kind::AssignOp { op, lhs, .. } => {
            proof {
                assert(hir.node_wf(*lhs));
            }
            if *op == BinOp::Add && hir.is_string_ty(hir.nodes[*lhs].ty)
                && signal_map::touches_param(hir, n, all) {
                Some(Trigger::Concat)
            } else {
                None
            }
        },
        Kind::Call { .. } | Kind::MethodCall { .. } => find_call_trigger(hir, n, all),
        _ => None,
    }
}

/// The markers among the first `n` expressions of a list.
pub open spec fn triggers_in(hir: Hir, list: Seq<usize>, all: Seq<usize>, n: int) -> Seq<
    (Trigger, usize),
>
    decreases n,
{
    if n <= 0 {
        seq![]
    } else {
        let before = triggers_in(hir, list, all, n - 1);
        match trigger_at(hir, list[n - 1], all) {
            Some(trigger) => before.push((trigger, list[n - 1])),
            None => before,
        }
    }
}

/// The markers inside a body, closures left out.
pub open spec fn triggers_of(hir: Hir, body: usize, all: Seq<usize>) -> Seq<(Trigger, usize)> {
    triggers_in(hir, hir.exprs(body, false), all, hir.exprs(body, false).len() as int)
}

/// Every hand-built-string marker inside the body (the map function's value)
/// that reads a parameter, in source order. Nested closures and const blocks are
/// not descended into: their `format!`s belong to their own bodies.
pub fn triggers(hir: &Hir, body: usize, all: &Vec<usize>) -> (r: Vec<(Trigger, usize)>)
    requires
        hir.wf(),
        hir.has(body),
    ensures
        r@ == triggers_of(*hir, body, all@),
        forall|i: int| 0 <= i < r@.len() ==> (#[trigger] r@[i]).1 <= body,
{
    let list: Vec<usize> = hir.exprs_in(body, false);
    let mut out: Vec<(Trigger, usize)> = Vec::new();
    let mut i: usize = 0;
    while i < list.len()
        invariant
            i <= list.len(),
            hir.wf(),
            hir.has(body),
            list@ == hir.exprs(body, false),
            hir::all_below(list@, body + 1),
            out@ == triggers_in(*hir, list@, all@, i as int),
            forall|k: int| 0 <= k < out@.len() ==> (#[trigger] out@[k]).1 <= body,
        decreases list.len() - i,
    {
        if let Some(trigger) = find_trigger(hir, list[i], all) {
            out.push((trigger, list[i]));
        }
        i = i + 1;
    }
    out
}

/// A branch that decides between strings.
pub open spec fn string_branch(hir: Hir, n: usize) -> bool {
    (hir.kind(n) is If || hir.kind(n) is Match) && hir.stringy(hir.node(n).ty)
}

/// The body decides between strings.
pub open spec fn branches_string(hir: Hir, body: usize) -> bool {
    exists|i: int|
        0 <= i < hir.exprs(body, false).len() && string_branch(
            hir,
            #[trigger] hir.exprs(body, false)[i],
        )
}

/// Whether the body decides between string-producing `if`/`match` branches: the
/// help then names the condition-as-signal rewrite alongside `s!`.
pub fn has_string_branch(hir: &Hir, body: usize) -> (r: bool)
    requires
        hir.wf(),
        hir.has(body),
    ensures
        r == branches_string(*hir, body),
{
    let list: Vec<usize> = hir.exprs_in(body, false);
    let mut i: usize = 0;
    while i < list.len()
        invariant
            i <= list.len(),
            hir.wf(),
            hir.has(body),
            list@ == hir.exprs(body, false),
            hir::all_below(list@, body + 1),
            forall|k: int| 0 <= k < i ==> !string_branch(*hir, #[trigger] list@[k]),
        decreases list.len() - i,
    {
        let n: usize = list[i];
        proof {
            assert(hir.node_wf(n));
        }
        let branch: bool = match &hir.nodes[n].kind {
            Kind::If { .. } | Kind::Match { .. } => true,
            _ => false,
        };
        if branch && hir.is_string_ty(hir.nodes[n].ty) {
            assert(string_branch(*hir, list@[i as int]));
            return true;
        }
        i = i + 1;
    }
    false
}

/// Where the map's result ends up after climbing transparent consumers.
#[derive(Clone, Copy, Debug, PartialEq, Eq, Structural)]
pub enum Sink {
    /// Operand `index` of the call.
    Arg { call: usize, index: usize },
    /// It initializes the `let`.
    Let(usize),
    /// A `text!` capture's value: `manual_text_map`'s territory, so it counts as
    /// reaching text.
    TextCapture,
    /// Consumed any other way: a field, a `.get()`, a return, a drop.
    End,
}

/// Calls at whose first operand a signal is only carried on.
pub open spec fn carrying(hir: Hir, call: usize) -> bool {
    hir.resolves(call, signal_map::result_adapters()) || hir.resolves(
        call,
        seq![Known::Clone, Known::ToOwned, Known::Into, Known::From, Known::ComputedNew],
    )
}

fn is_carrying(hir: &Hir, call: usize) -> (r: bool)
    requires
        hir.has(call),
    ensures
        r == carrying(*hir, call),
{
    let adapters: [Known; 7] = [
        Known::SignalComputed,
        Known::SignalWith,
        Known::SignalCached,
        Known::SignalDistinct,
        Known::SignalInspect,
        Known::IntoSignalFn,
        Known::IntoComputedFn,
    ];
    let conversions: [Known; 5] = [
        Known::Clone,
        Known::ToOwned,
        Known::Into,
        Known::From,
        Known::ComputedNew,
    ];
    proof {
        assert(adapters@ =~= signal_map::result_adapters());
        assert(conversions@ =~= seq![
            Known::Clone,
            Known::ToOwned,
            Known::Into,
            Known::From,
            Known::ComputedNew,
        ]);
    }
    hir.resolves_to(call, &adapters) || hir.resolves_to(call, &conversions)
}

/// Where the value of `current` ends up, seen from `at`, which it has been
/// followed up to.
pub open spec fn sink_from(
    hir: Hir,
    at: usize,
    current: usize,
    text_macro: Option<usize>,
) -> Sink
    decreases hir.nodes@.len() - at,
{
    match hir.up(at) {
        Some(p) => if manual_text_map::yields(hir, p, current) {
            sink_from(hir, p, p, text_macro)
        } else if manual_text_map::lets_through(hir, p, current) {
            sink_from(hir, p, current, text_macro)
        } else if hir.is_call(p) {
            match hir.operand_place(p, current) {
                Some(index) => if index == 0 && carrying(hir, p) {
                    sink_from(hir, p, p, text_macro)
                } else {
                    Sink::Arg { call: p, index: index as usize }
                },
                None => Sink::End,
            }
        } else {
            match hir.kind(p) {
                Kind::LetStmt { pat: _, ty: _, init, els: _ } => if init != Some(current) {
                    Sink::End
                } else if manual_text_map::from_text(hir, p, text_macro) {
                    Sink::TextCapture
                } else {
                    Sink::Let(p)
                },
                _ => Sink::End,
            }
        },
        None => Sink::End,
    }
}

fn climb(hir: &Hir, at: usize, current: usize, text_macro: Option<usize>) -> (r: Sink)
    requires
        hir.wf(),
        hir.has(at),
        hir.has(current),
    ensures
        r == sink_from(*hir, at, current, text_macro),
        match r {
            Sink::Arg { call, index } => hir.has(call),
            Sink::Let(local) => hir.has(local),
            _ => true,
        },
    decreases hir.nodes.len() - at,
{
    let p: usize = match hir.parent(at) {
        Some(p) => p,
        None => {
            return Sink::End;
        },
    };
    if manual_text_map::is_yielded(hir, p, current) {
        return climb(hir, p, p, text_macro);
    }
    if manual_text_map::is_let_through(hir, p, current) {
        return climb(hir, p, current, text_macro);
    }
    match &hir.nodes[p].kind {
        Kind::Call { .. } | Kind::MethodCall { .. } => match hir.arg_index(p, current) {
            Some(index) => if index == 0 && is_carrying(hir, p) {
                climb(hir, p, p, text_macro)
            } else {
                Sink::Arg { call: p, index }
            },
            None => Sink::End,
        },
        Kind::LetStmt { init, .. } => {
            let own: bool = match init {
                Some(init) => *init == current,
                None => false,
            };
            if !own {
                Sink::End
            } else if manual_text_map::is_from_text(hir, p, text_macro) {
                Sink::TextCapture
            } else {
                Sink::Let(p)
            }
        },
        _ => Sink::End,
    }
}

/// Climbs the parents through drop-temps, statement-free block tails, `if` and
/// `match` arms, and the signal carriers at operand position 0. A `let` that is
/// a `text!` capture binding counts as text.
pub fn sink(hir: &Hir, n: usize, text_macro: Option<usize>) -> (r: Sink)
    requires
        hir.wf(),
        hir.has(n),
    ensures
        r == sink_from(*hir, n, n, text_macro),
        match r {
            Sink::Arg { call, index } => hir.has(call),
            Sink::Let(local) => hir.has(local),
            _ => true,
        },
{
    climb(hir, n, n, text_macro)
}

/// The value of `n` reaches a text parameter; the `let`s on the way are followed
/// `fuel` times.
pub open spec fn text_bound(hir: Hir, n: usize, text_macro: Option<usize>, fuel: int) -> bool
    decreases fuel, 0int,
{
    match sink_from(hir, n, n, text_macro) {
        Sink::Arg { call, index } => hir.bounded(
            call,
            index as int,
            manual_text_map::text_bounds(),
        ),
        Sink::TextCapture => true,
        Sink::Let(stmt) => match crate::needless_signal_cast::plain_local(hir, stmt) {
            Some(local) => fuel > 0 && read_reaches(
                hir,
                local,
                hir.nodes@.len() as int,
                text_macro,
                fuel - 1,
            ),
            None => false,
        },
        Sink::End => false,
    }
}

/// Some read of the local among the first `n` nodes reaches a text parameter.
pub open spec fn read_reaches(
    hir: Hir,
    local: usize,
    n: int,
    text_macro: Option<usize>,
    fuel: int,
) -> bool
    decreases fuel, 1int, n,
{
    if n <= 0 {
        false
    } else {
        read_reaches(hir, local, n - 1, text_macro, fuel) || (hir.local((n - 1) as usize) == Some(
            local,
        ) && text_bound(hir, (n - 1) as usize, text_macro, fuel))
    }
}

proof fn lemma_read_reaches(
    hir: Hir,
    local: usize,
    m: int,
    n: int,
    text_macro: Option<usize>,
    fuel: int,
)
    requires
        m <= n,
        read_reaches(hir, local, m, text_macro, fuel),
    ensures
        read_reaches(hir, local, n, text_macro, fuel),
    decreases n,
{
    if m < n {
        lemma_read_reaches(hir, local, m, n - 1, text_macro, fuel);
    }
}

fn any_read_reaches(hir: &Hir, local: usize, text_macro: Option<usize>, fuel: usize) -> (r: bool)
    requires
        hir.wf(),
    ensures
        r == read_reaches(*hir, local, hir.nodes@.len() as int, text_macro, fuel as int),
    decreases fuel, 1int,
{
    let mut n: usize = 0;
    while n < hir.nodes.len()
        invariant
            n <= hir.nodes.len(),
            hir.wf(),
            !read_reaches(*hir, local, n as int, text_macro, fuel as int),
        decreases hir.nodes.len() - n,
    {
        if let Some(id) = hir.res_local(n) {
            if id == local && reaches_text(hir, n, text_macro, fuel) {
                proof {
                    assert(read_reaches(*hir, local, n + 1, text_macro, fuel as int));
                    lemma_read_reaches(
                        *hir,
                        local,
                        n + 1,
                        hir.nodes@.len() as int,
                        text_macro,
                        fuel as int,
                    );
                }
                return true;
            }
        }
        n = n + 1;
    }
    false
}

fn let_local(hir: &Hir, stmt: usize) -> (r: Option<usize>)
    requires
        hir.wf(),
        hir.has(stmt),
    ensures
        r == crate::needless_signal_cast::plain_local(*hir, stmt),
{
    proof {
        assert(hir.node_wf(stmt));
    }
    match &hir.nodes[stmt].kind {
        Kind::LetStmt { pat, .. } => match &hir.nodes[*pat].kind {
            Kind::Binding { id, sub: None, .. } => Some(*id),
            _ => None,
        },
        _ => None,
    }
}

/// Whether the value reaches an `IntoText`/`IntoLabel` parameter: through the
/// carriers that `sink` climbs, or through a `let` whose binding has at least
/// one use that does.
pub fn reaches_text(hir: &Hir, n: usize, text_macro: Option<usize>, fuel: usize) -> (r: bool)
    requires
        hir.wf(),
        hir.has(n),
    ensures
        r == text_bound(*hir, n, text_macro, fuel as int),
    decreases fuel, 0int,
{
    match sink(hir, n, text_macro) {
        Sink::Arg { call, index } => hir.arg_has_bound(
            call,
            index,
            &[Known::IntoText, Known::IntoLabel],
        ),
        Sink::TextCapture => true,
        Sink::Let(stmt) => match let_local(hir, stmt) {
            Some(local) => if fuel > 0 {
                any_read_reaches(hir, local, text_macro, fuel - 1)
            } else {
                false
            },
            None => false,
        },
        Sink::End => false,
    }
}

/// Calls that rewrap a produced string without reading it.
pub open spec fn conversions() -> Seq<Known> {
    seq![Known::ToString, Known::ToOwned, Known::Into, Known::From]
}

/// The value that an expression renders, without `&`, `clone`, drop-temps and
/// string conversions around it.
pub open spec fn rendered_value(hir: Hir, n: usize) -> usize
    decreases n,
{
    let e = hir.unwrapped(n);
    match hir.first_operand(e) {
        Some(arg) => if hir.is_call(e) && hir.resolves(e, conversions()) && arg < n {
            rendered_value(hir, arg)
        } else {
            e
        },
        None => e,
    }
}

/// The expression stripped of `&`, drop-temps, `clone` and the string
/// conversions down to the value rendered.
pub fn peel_value(hir: &Hir, n: usize) -> (r: usize)
    requires
        hir.wf(),
        hir.has(n),
    ensures
        r == rendered_value(*hir, n),
        r <= n,
    decreases n,
{
    let e: usize = hir.strip_wraps(n);
    if let Some(arg) = hir.first_arg(e) {
        if hir.call(e) && hir.resolves_to(
            e,
            &[Known::ToString, Known::ToOwned, Known::Into, Known::From],
        ) {
            return peel_value(hir, arg);
        }
    }
    e
}

/// The source that the first `n` expressions read, where it is one; nothing once
/// they read a partial destructure or several.
pub open spec fn source_read(hir: Hir, list: Seq<usize>, params: ParamsView, n: int) -> Option<
    Option<int>,
>
    decreases n,
{
    if n <= 0 {
        Some(None)
    } else {
        match (
            source_read(hir, list, params, n - 1),
            signal_map::param_read(hir, list[n - 1], params.all),
        ) {
            (None, _) => None,
            (Some(found), None) => Some(found),
            (Some(found), Some(id)) => match (found, params.source_of(id)) {
                (None, Some(i)) => Some(Some(i)),
                (Some(j), Some(i)) => if i == j {
                    Some(found)
                } else {
                    None
                },
                (_, None) => None,
            },
        }
    }
}

/// The one signal source that an expression's bindings destructure.
pub open spec fn sole_source(hir: Hir, n: usize, params: ParamsView) -> Option<int> {
    match source_read(hir, hir.exprs(n, false), params, hir.exprs(n, false).len() as int) {
        Some(found) => found,
        None => None,
    }
}

proof fn lemma_source_lost(hir: Hir, list: Seq<usize>, params: ParamsView, m: int, n: int)
    requires
        m <= n,
        source_read(hir, list, params, m) is None,
    ensures
        source_read(hir, list, params, n) is None,
    decreases n,
{
    if m < n {
        lemma_source_lost(hir, list, params, m, n - 1);
    }
}

/// The one signal source an argument's bindings destructure: `u.name` reads
/// source 0's binding `u`. Nothing when it reads no binding, a partial
/// destructure, or bindings of several sources.
pub fn single_source(hir: &Hir, n: usize, params: &Params) -> (r: Option<usize>)
    requires
        hir.wf(),
        hir.has(n),
    ensures
        match r {
            Some(i) => sole_source(*hir, n, params@) == Some(i as int) && i < params.slots.len()
                && params.whole,
            None => sole_source(*hir, n, params@) is None,
        },
{
    let list: Vec<usize> = hir.exprs_in(n, false);
    let mut found: Option<usize> = None;
    let mut i: usize = 0;
    while i < list.len()
        invariant
            i <= list.len(),
            hir.has(n),
            list@ == hir.exprs(n, false),
            hir::all_below(list@, n + 1),
            match found {
                Some(s) => source_read(*hir, list@, params@, i as int) == Some(Some(s as int)) && s
                    < params.slots.len() && params.whole,
                None => source_read(*hir, list@, params@, i as int) == Some(None::<int>),
            },
        decreases list.len() - i,
    {
        if let Some(id) = signal_map::param_hir_id(hir, list[i], &params.all) {
            let source: Option<usize> = params.source_of(id);
            match (found, source) {
                (None, Some(s)) => {
                    found = Some(s);
                },
                (Some(j), Some(s)) => {
                    if s != j {
                        proof {
                            lemma_source_lost(
                                *hir,
                                list@,
                                params@,
                                i + 1,
                                list@.len() as int,
                            );
                        }
                        return None;
                    }
                },
                (_, None) => {
                    proof {
                        lemma_source_lost(*hir, list@, params@, i + 1, list@.len() as int);
                    }
                    return None;
                },
            }
        }
        i = i + 1;
    }
    found
}

/// How an `s!` placeholder gets its value.
#[derive(Debug)]
pub enum Slot {
    /// `{name}` captures the in-scope signal directly: no binding.
    Capture(String),
    /// `{name}` plus a `name = <signal>` binding after the literal.
    Bind(String, String),
}

pub ghost enum SlotView {
    Capture(Seq<char>),
    Bind(Seq<char>, Seq<char>),
}

impl View for Slot {
    type V = SlotView;

    open spec fn view(&self) -> SlotView {
        match *self {
            Slot::Capture(name) => SlotView::Capture(name@),
            Slot::Bind(name, value) => SlotView::Bind(name@, value@),
        }
    }
}

/// What an optional slot is.
pub open spec fn slot_opt(slot: Option<Slot>) -> Option<SlotView> {
    match slot {
        Some(slot) => Some(slot@),
        None => None,
    }
}

/// The slot of a parameter that stands for source `i`.
pub open spec fn source_slot(hir: Hir, source: usize, params: ParamsView, i: int) -> Option<
    SlotView,
> {
    if !hir.expr_ty(source).known_clone() {
        None
    } else {
        match (signal_map::bare_name(hir, source), hir.source(source)) {
            (Some(name), _) => Some(SlotView::Capture(name)),
            (None, Some(text)) => Some(
                SlotView::Bind(
                    match params.name_of(i) {
                        Some(name) => name,
                        None => signal_map::numbered(i),
                    },
                    text,
                ),
            ),
            (None, None) => None,
        }
    }
}

/// The name of the signal that an expression reads the current value of.
pub open spec fn read_name(hir: Hir, n: usize) -> Option<Seq<char>> {
    match hir.node(n).get_receiver {
        Some(receiver) => if hir.node(n).snapshot && hir.expr_ty(
            hir.unwrapped(receiver),
        ).known_clone() {
            signal_map::bare_name(hir, hir.unwrapped(receiver))
        } else {
            None
        },
        None => None,
    }
}

/// The slot of a value that is neither a source nor read from one: a signal is
/// bound as it is, anything else through `constant(..)`; a value that cannot be
/// copied fills none.
pub open spec fn value_slot(
    hir: Hir,
    n: usize,
    name: Seq<char>,
    text: Seq<char>,
    captured: bool,
) -> Option<SlotView> {
    if !hir.expr_ty(n).known_clone() {
        None
    } else if hir.expr_ty(n).known_signal() {
        if captured {
            Some(SlotView::Capture(name))
        } else {
            Some(SlotView::Bind(name, text))
        }
    } else {
        Some(SlotView::Bind(name, "constant("@ + text + ")"@))
    }
}

/// The slot of an expression that is no source by itself.
pub open spec fn other_slot(
    hir: Hir,
    sources: Seq<usize>,
    params: ParamsView,
    n: usize,
    index: int,
) -> Option<SlotView> {
    match (read_name(hir, n), signal_map::bare_name(hir, n)) {
        (Some(name), _) => Some(SlotView::Capture(name)),
        (None, Some(name)) => value_slot(hir, n, name, name, true),
        (None, None) => if signal_map::mentions(hir, n, params.all) {
            match sole_source(hir, n, params) {
                Some(i) => match (params.name_of(i), hir.source(sources[i]), hir.source(n)) {
                    (Some(pat), Some(source), Some(text)) => Some(
                        SlotView::Bind(
                            signal_map::alias_text(hir, n, index),
                            source + ".map(|"@ + pat + "| "@ + text + ")"@,
                        ),
                    ),
                    _ => None,
                },
                None => None,
            }
        } else {
            match hir.source(n) {
                Some(text) => value_slot(hir, n, signal_map::numbered(index), text, false),
                None => None,
            }
        },
    }
}

/// The slot that an argument fills.
pub open spec fn slot_of(
    hir: Hir,
    sources: Seq<usize>,
    params: ParamsView,
    arg: usize,
    index: int,
) -> Option<SlotView> {
    let n = rendered_value(hir, arg);
    match signal_map::param_read(hir, n, params.all) {
        Some(id) => match params.source_of(id) {
            Some(i) => source_slot(hir, sources[i], params, i),
            None => other_slot(hir, sources, params, n, index),
        },
        None => other_slot(hir, sources, params, n, index),
    }
}

/// The sources are nodes, and as many as the pattern has positions for.
pub open spec fn sources_fit(hir: Hir, sources: Seq<usize>, params: ParamsView) -> bool {
    hir::all_below(sources, hir.nodes@.len() as int) && (params.whole ==> params.slots.len()
        == sources.len())
}

fn fill_source(hir: &Hir, source: usize, params: &Params, i: usize) -> (r: Option<Slot>)
    requires
        hir.wf(),
        hir.has(source),
    ensures
        slot_opt(r) == source_slot(*hir, source, params@, i as int),
{
    if !hir.type_of(source).is_known_clone() {
        return None;
    }
    if let Some(name) = signal_map::bare_path_ident(hir, source) {
        return Some(Slot::Capture(name));
    }
    let text: String = match hir.snippet_opt(source) {
        Some(text) => text,
        None => {
            return None;
        },
    };
    let name: String = match params.name_of(i) {
        Some(name) => name,
        None => signal_map::numbered_name(i),
    };
    Some(Slot::Bind(name, text))
}

fn fill_value(hir: &Hir, n: usize, name: String, text: String, captured: bool) -> (r: Option<Slot>)
    requires
        hir.wf(),
        hir.has(n),
    ensures
        slot_opt(r) == value_slot(*hir, n, name@, text@, captured),
{
    if !hir.type_of(n).is_known_clone() {
        None
    } else if hir.type_of(n).is_known_signal() {
        if captured {
            Some(Slot::Capture(name))
        } else {
            Some(Slot::Bind(name, text))
        }
    } else {
        Some(Slot::Bind(name, text::cat3("constant(", text.as_str(), ")")))
    }
}

fn find_read_name(hir: &Hir, n: usize) -> (r: Option<String>)
    requires
        hir.wf(),
        hir.has(n),
    ensures
        text::text_opt(r) == read_name(*hir, n),
{
    proof {
        assert(hir.node_wf(n));
    }
    match hir.nodes[n].get_receiver {
        Some(receiver) => {
            let signal: usize = hir.strip_wraps(receiver);
            if hir.nodes[n].snapshot && hir.type_of(signal).is_known_clone() {
                signal_map::bare_path_ident(hir, signal)
            } else {
                None
            }
        },
        None => None,
    }
}

fn fill_other(
    hir: &Hir,
    sources: &Vec<usize>,
    params: &Params,
    n: usize,
    index: usize,
) -> (r: Option<Slot>)
    requires
        hir.wf(),
        hir.has(n),
        sources_fit(*hir, sources@, params@),
    ensures
        slot_opt(r) == other_slot(*hir, sources@, params@, n, index as int),
{
    if let Some(name) = find_read_name(hir, n) {
        return Some(Slot::Capture(name));
    }
    if let Some(name) = signal_map::bare_path_ident(hir, n) {
        let text: String = name.clone();
        return fill_value(hir, n, name, text, true);
    }
    if signal_map::touches_param(hir, n, &params.all) {
        let i: usize = match single_source(hir, n, params) {
            Some(i) => i,
            None => {
                return None;
            },
        };
        return match (params.name_of(i), hir.snippet_opt(sources[i]), hir.snippet_opt(n)) {
            (Some(pat), Some(source), Some(text)) => {
                let call: String = text::cat4(source.as_str(), ".map(|", pat.as_str(), "| ");
                Some(
                    Slot::Bind(
                        signal_map::alias_name(hir, n, index),
                        text::cat3(call.as_str(), text.as_str(), ")"),
                    ),
                )
            },
            _ => None,
        };
    }
    match hir.snippet_opt(n) {
        Some(text) => fill_value(hir, n, signal_map::numbered_name(index), text, false),
        None => None,
    }
}

/// The `s!` slot an argument fills: a parameter binding maps back to its signal
/// source (captured by the source's own name when that is a bare identifier),
/// `x.get()` captures `x`, a bare in-scope signal captures by name, a parameter
/// projection becomes `name = <source>.map(|<binding>| <expr>)`, and any other
/// value is bound through `constant(..)`. A value that is not `Clone` cannot
/// fill a slot.
pub fn slot(hir: &Hir, sources: &Vec<usize>, params: &Params, arg: usize, index: usize) -> (r:
    Option<Slot>)
    requires
        hir.wf(),
        hir.has(arg),
        sources_fit(*hir, sources@, params@),
    ensures
        slot_opt(r) == slot_of(*hir, sources@, params@, arg, index as int),
{
    let n: usize = peel_value(hir, arg);
    if let Some(id) = signal_map::param_hir_id(hir, n, &params.all) {
        if let Some(i) = params.source_of(id) {
            return fill_source(hir, sources[i], params, i);
        }
    }
    fill_other(hir, sources, params, n, index)
}

/// The arguments of a list of slots.
pub open spec fn slot_texts(slots: Seq<(String, Option<String>)>) -> Seq<
    (Seq<char>, Option<Seq<char>>),
> {
    slots.map_values(|slot: (String, Option<String>)| (slot.0@, text::text_opt(slot.1)))
}

/// One slot's argument.
pub open spec fn s_arg(slot: (Seq<char>, Option<Seq<char>>)) -> Seq<char> {
    slot.0 + " = &"@ + (match slot.1 {
        Some(value) => value,
        None => slot.0,
    })
}

/// The `name = ..` arguments that the slots need: none if all of them capture.
pub open spec fn named_args(slots: Seq<(Seq<char>, Option<Seq<char>>)>) -> Seq<Seq<char>> {
    if forall|i: int| 0 <= i < slots.len() ==> (#[trigger] slots[i]).1 is None {
        seq![]
    } else {
        slots.map_values(|slot: (Seq<char>, Option<Seq<char>>)| s_arg(slot))
    }
}

/// The `name = ..` arguments an `s!` needs for `slots`: `(placeholder name,
/// bound value)` pairs where nothing marks a capture. One bound argument puts
/// `s!` in named mode, which rejects a `{name}` placeholder with no `name = ..`
/// argument, so captures then bind too. All-capture inputs emit no arguments at
/// all. Each named value goes through `ToOwned::to_owned(expr)`, a call that
/// does not auto-ref, so every value is spelled `&expr`.
pub fn s_args(slots: &[(String, Option<String>)]) -> (r: Vec<String>)
    ensures
        text::texts(r@) == named_args(slot_texts(slots@)),
{
    let ghost views = slot_texts(slots@);
    let mut bound: bool = false;
    let mut i: usize = 0;
    while i < slots.len()
        invariant
            i <= slots.len(),
            views == slot_texts(slots@),
            bound == (exists|k: int| 0 <= k < i && (#[trigger] views[k]).1 is Some),
        decreases slots.len() - i,
    {
        proof {
            assert(views[i as int].1 == text::text_opt(slots@[i as int].1));
        }
        if slots[i].1.is_some() {
            bound = true;
        }
        i = i + 1;
    }
    let mut out: Vec<String> = Vec::new();
    if !bound {
        proof {
            assert(text::texts(out@) =~= seq![]);
        }
        return out;
    }
    let mut n: usize = 0;
    while n < slots.len()
        invariant
            n <= slots.len(),
            views == slot_texts(slots@),
            out.len() == n,
            forall|k: int| 0 <= k < n ==> (#[trigger] out@[k])@ == s_arg(views[k]),
        decreases slots.len() - n,
    {
        let slot: &(String, Option<String>) = &slots[n];
        let arg: String = match &slot.1 {
            Some(value) => text::cat3(slot.0.as_str(), " = &", value.as_str()),
            None => text::cat3(slot.0.as_str(), " = &", slot.0.as_str()),
        };
        proof {
            assert(views[n as int] == (slots@[n as int].0@, text::text_opt(slots@[n as int].1)));
        }
        out.push(arg);
        n = n + 1;
    }
    proof {
        assert(text::texts(out@) =~= named_args(views));
    }
    out
}

/// The name and value of a format argument's slot.
pub open spec fn arg_slot(
    hir: Hir,
    sources: Seq<usize>,
    params: ParamsView,
    arg: FormatArg,
    index: int,
) -> Option<(Seq<char>, Option<Seq<char>>)> {
    match arg.expr {
        Some(expr) => match (slot_of(hir, sources, params, expr, index), arg.kind) {
            (Some(SlotView::Capture(name)), ArgKind::Named(ident)) => Some(
                (ident.written@, Some(name)),
            ),
            (Some(SlotView::Bind(_, value)), ArgKind::Named(ident)) => Some(
                (ident.written@, Some(value)),
            ),
            (Some(SlotView::Capture(name)), _) => Some((name, None)),
            (Some(SlotView::Bind(name, value)), _) => Some((name, Some(value))),
            (None, _) => None,
        },
        None => None,
    }
}

/// The slots of the first `n` format arguments.
pub open spec fn arg_slots(
    hir: Hir,
    sources: Seq<usize>,
    params: ParamsView,
    args: Seq<FormatArg>,
    n: int,
) -> Option<Seq<(Seq<char>, Option<Seq<char>>)>>
    decreases n,
{
    if n <= 0 {
        Some(seq![])
    } else {
        match (
            arg_slots(hir, sources, params, args, n - 1),
            arg_slot(hir, sources, params, args[n - 1], n - 1),
        ) {
            (Some(slots), Some(slot)) => Some(slots.push(slot)),
            _ => None,
        }
    }
}

/// The names of the slots.
pub open spec fn slot_names(slots: Seq<(Seq<char>, Option<Seq<char>>)>) -> Seq<Seq<char>> {
    slots.map_values(|slot: (Seq<char>, Option<Seq<char>>)| slot.0)
}

/// An `s!` call.
pub open spec fn s_call(template: Seq<char>, slots: Seq<(Seq<char>, Option<Seq<char>>)>) -> Seq<
    char,
> {
    template::macro_text("s!("@, template, seq![], named_args(slots))
}

fn write_s_call(template: &str, slots: &Vec<(String, Option<String>)>) -> (r: String)
    ensures
        r@ == s_call(template@, slot_texts(slots@)),
{
    let args: Vec<String> = s_args(slots.as_slice());
    let none: String = String::new();
    proof {
        assert(none@ =~= seq![]);
    }
    template::write_macro("s!(", template, none.as_str(), &args)
}

/// The `s!` call that a `format!` with these arguments is.
pub open spec fn format_call(
    hir: Hir,
    sources: Seq<usize>,
    params: ParamsView,
    format: FormatArgs,
) -> Option<Seq<char>> {
    match arg_slots(hir, sources, params, format.args@, format.args@.len() as int) {
        Some(slots) => match format_args::rebuilt(
            format.template@,
            slot_names(slots),
            format.template@.len() as int,
        ) {
            Rebuilt::Text(template) => Some(s_call(template, slots)),
            _ => None,
        },
        None => None,
    }
}

proof fn lemma_no_slots(
    hir: Hir,
    sources: Seq<usize>,
    params: ParamsView,
    args: Seq<FormatArg>,
    m: int,
    n: int,
)
    requires
        m <= n,
        arg_slots(hir, sources, params, args, m) is None,
    ensures
        arg_slots(hir, sources, params, args, n) is None,
    decreases n,
{
    if m < n {
        lemma_no_slots(hir, sources, params, args, m, n - 1);
    }
}

fn fill_arg(
    hir: &Hir,
    sources: &Vec<usize>,
    params: &Params,
    arg: &FormatArg,
    index: usize,
) -> (r: Option<(String, Option<String>)>)
    requires
        hir.wf(),
        sources_fit(*hir, sources@, params@),
        hir::opt_below(arg.expr, hir.nodes@.len() as int),
    ensures
        match r {
            Some(slot) => arg_slot(*hir, sources@, params@, *arg, index as int) == Some(
                (slot.0@, text::text_opt(slot.1)),
            ),
            None => arg_slot(*hir, sources@, params@, *arg, index as int) is None,
        },
{
    let expr: usize = match arg.expr {
        Some(expr) => expr,
        None => {
            return None;
        },
    };
    let slot: Slot = match slot(hir, sources, params, expr, index) {
        Some(slot) => slot,
        None => {
            return None;
        },
    };
    match &arg.kind {
        ArgKind::Named(ident) => Some(
            (
                ident.written.clone(),
                match slot {
                    Slot::Capture(name) => Some(name),
                    Slot::Bind(_, value) => Some(value),
                },
            ),
        ),
        _ => Some(
            match slot {
                Slot::Capture(name) => (name, None),
                Slot::Bind(name, value) => (name, Some(value)),
            },
        ),
    }
}

fn fill_args(hir: &Hir, sources: &Vec<usize>, params: &Params, args: &Vec<FormatArg>) -> (r: Option<
    Vec<(String, Option<String>)>,
>)
    requires
        hir.wf(),
        sources_fit(*hir, sources@, params@),
        forall|i: int|
            0 <= i < args@.len() ==> hir::opt_below(
                (#[trigger] args@[i]).expr,
                hir.nodes@.len() as int,
            ),
    ensures
        match r {
            Some(slots) => arg_slots(*hir, sources@, params@, args@, args@.len() as int) == Some(
                slot_texts(slots@),
            ),
            None => arg_slots(*hir, sources@, params@, args@, args@.len() as int) is None,
        },
{
    let mut slots: Vec<(String, Option<String>)> = Vec::new();
    let mut i: usize = 0;
    proof {
        assert(slot_texts(slots@) =~= seq![]);
    }
    while i < args.len()
        invariant
            i <= args.len(),
            hir.wf(),
            sources_fit(*hir, sources@, params@),
            forall|k: int|
                0 <= k < args@.len() ==> hir::opt_below(
                    (#[trigger] args@[k]).expr,
                    hir.nodes@.len() as int,
                ),
            arg_slots(*hir, sources@, params@, args@, i as int) == Some(slot_texts(slots@)),
        decreases args.len() - i,
    {
        match fill_arg(hir, sources, params, &args[i], i) {
            Some(slot) => {
                let ghost before = slots@;
                slots.push(slot);
                proof {
                    assert(slot_texts(slots@) =~= slot_texts(before).push(
                        (slot.0@, text::text_opt(slot.1)),
                    ));
                }
            },
            None => {
                proof {
                    lemma_no_slots(
                        *hir,
                        sources@,
                        params@,
                        args@,
                        i + 1,
                        args@.len() as int,
                    );
                }
                return None;
            },
        }
        i = i + 1;
    }
    Some(slots)
}

fn names_of(slots: &Vec<(String, Option<String>)>) -> (r: Vec<String>)
    ensures
        text::texts(r@) == slot_names(slot_texts(slots@)),
{
    let mut out: Vec<String> = Vec::new();
    let mut i: usize = 0;
    while i < slots.len()
        invariant
            i <= slots.len(),
            out.len() == i,
            forall|k: int| 0 <= k < i ==> (#[trigger] out@[k])@ == slots@[k].0@,
        decreases slots.len() - i,
    {
        out.push(slots[i].0.clone());
        i = i + 1;
    }
    proof {
        assert(text::texts(out@) =~= slot_names(slot_texts(slots@)));
    }
    out
}

/// `s!("..", ..)` for a single `format!(..)`. Nothing when the template or an
/// argument cannot be mapped back to source.
pub fn format_sketch(hir: &Hir, sources: &Vec<usize>, params: &Params, format: &FormatArgs) -> (r:
    Option<String>)
    requires
        hir.wf(),
        sources_fit(*hir, sources@, params@),
        forall|i: int|
            0 <= i < format.args@.len() ==> hir::opt_below(
                (#[trigger] format.args@[i]).expr,
                hir.nodes@.len() as int,
            ),
    ensures
        text::text_opt(r) == format_call(*hir, sources@, params@, *format),
{
    let slots: Vec<(String, Option<String>)> = match fill_args(
        hir,
        sources,
        params,
        &format.args,
    ) {
        Some(slots) => slots,
        None => {
            return None;
        },
    };
    let names: Vec<String> = names_of(&slots);
    match format_args::rebuild(&format.template, &names) {
        Ok(template) => Some(write_s_call(template.as_str(), &slots)),
        Err(_) => None,
    }
}

/// The operands of a `+` chain, from left to right.
pub open spec fn addends(hir: Hir, n: usize) -> Seq<usize>
    decreases n,
{
    match hir.kind(n) {
        Kind::Binary { op, lhs, rhs } => if op is Add && lhs < n && rhs < n {
            addends(hir, lhs) + addends(hir, rhs)
        } else {
            seq![n]
        },
        _ => seq![n],
    }
}

fn push_addends(hir: &Hir, n: usize, out: &mut Vec<usize>)
    requires
        hir.wf(),
        hir.has(n),
        hir::all_below(old(out)@, hir.nodes@.len() as int),
    ensures
        final(out)@ == old(out)@ + addends(*hir, n),
        hir::all_below(final(out)@, hir.nodes@.len() as int),
    decreases n,
{
    proof {
        assert(hir.node_wf(n));
    }
    let ghost before = out@;
    if let Kind::Binary { op, lhs, rhs } = &hir.nodes[n].kind {
        if *op == BinOp::Add {
            push_addends(hir, *lhs, out);
            push_addends(hir, *rhs, out);
            proof {
                assert(out@ =~= before + (addends(*hir, *lhs) + addends(*hir, *rhs)));
            }
            return;
        }
    }
    out.push(n);
    proof {
        assert(out@ =~= before + seq![n]);
    }
}

/// The text of a string literal.
pub open spec fn literal_text(hir: Hir, n: usize) -> Option<Seq<char>> {
    match hir.kind(n) {
        Kind::Lit { lit: Lit::Str(text) } => Some(text@),
        _ => None,
    }
}

/// The template and the slots of the first `n` operands of a `+` chain.
pub open spec fn chain_slots(
    hir: Hir,
    sources: Seq<usize>,
    params: ParamsView,
    operands: Seq<usize>,
    n: int,
) -> Option<(Seq<char>, Seq<(Seq<char>, Option<Seq<char>>)>)>
    decreases n,
{
    if n <= 0 {
        Some((seq![], seq![]))
    } else {
        let operand = rendered_value(hir, operands[n - 1]);
        match chain_slots(hir, sources, params, operands, n - 1) {
            Some((template, slots)) => match (
                literal_text(hir, operand),
                slot_of(hir, sources, params, operand, n - 1),
            ) {
                (Some(text), _) => Some((template + format_args::escaped(text), slots)),
                (None, Some(SlotView::Capture(name))) => Some(
                    (
                        template + seq!['{'] + name + seq!['}'],
                        slots.push((name, None::<Seq<char>>)),
                    ),
                ),
                (None, Some(SlotView::Bind(name, value))) => Some(
                    (template + seq!['{'] + name + seq!['}'], slots.push((name, Some(value)))),
                ),
                (None, None) => None,
            },
            None => None,
        }
    }
}

/// The `s!` call that a `+` chain is.
pub open spec fn concat_call(
    hir: Hir,
    sources: Seq<usize>,
    params: ParamsView,
    body: usize,
) -> Option<Seq<char>> {
    match chain_slots(
        hir,
        sources,
        params,
        addends(hir, body),
        addends(hir, body).len() as int,
    ) {
        Some((template, slots)) => Some(s_call(template, slots)),
        None => None,
    }
}

proof fn lemma_no_chain(
    hir: Hir,
    sources: Seq<usize>,
    params: ParamsView,
    operands: Seq<usize>,
    m: int,
    n: int,
)
    requires
        m <= n,
        chain_slots(hir, sources, params, operands, m) is None,
    ensures
        chain_slots(hir, sources, params, operands, n) is None,
    decreases n,
{
    if m < n {
        lemma_no_chain(hir, sources, params, operands, m, n - 1);
    }
}

fn push_named(template: &mut String, name: &str)
    ensures
        final(template)@ == old(template)@ + seq!['{'] + name@ + seq!['}'],
{
    let ghost before = template@;
    template.push('{');
    assert(template@ =~= before + seq!['{']);
    template.append(name);
    let ghost inner = template@;
    template.push('}');
    assert(template@ =~= inner + seq!['}']);
}

/// `s!("..", ..)` for a `+` chain: each operand is a string literal (folded into
/// the template) or a slot.
pub fn concat_sketch(hir: &Hir, sources: &Vec<usize>, params: &Params, body: usize) -> (r: Option<
    String,
>)
    requires
        hir.wf(),
        hir.has(body),
        sources_fit(*hir, sources@, params@),
    ensures
        text::text_opt(r) == concat_call(*hir, sources@, params@, body),
{
    let mut operands: Vec<usize> = Vec::new();
    push_addends(hir, body, &mut operands);
    let mut template: String = String::new();
    let mut slots: Vec<(String, Option<String>)> = Vec::new();
    let mut i: usize = 0;
    proof {
        assert(operands@ =~= addends(*hir, body));
        assert(template@ =~= seq![]);
        assert(slot_texts(slots@) =~= seq![]);
    }
    while i < operands.len()
        invariant
            i <= operands.len(),
            hir.wf(),
            sources_fit(*hir, sources@, params@),
            operands@ == addends(*hir, body),
            hir::all_below(operands@, hir.nodes@.len() as int),
            chain_slots(*hir, sources@, params@, operands@, i as int) == Some(
                (template@, slot_texts(slots@)),
            ),
        decreases operands.len() - i,
    {
        let operand: usize = peel_value(hir, operands[i]);
        let ghost total = operands@.len() as int;
        if let Kind::Lit { lit: Lit::Str(text) } = &hir.nodes[operand].kind {
            format_args::escape_literal(text.as_str(), &mut template);
        } else {
            let ghost before = slots@;
            match slot(hir, sources, params, operand, i) {
                Some(Slot::Capture(name)) => {
                    push_named(&mut template, name.as_str());
                    slots.push((name, None));
                    proof {
                        assert(slot_texts(slots@) =~= slot_texts(before).push(
                            (name@, None::<Seq<char>>),
                        ));
                    }
                },
                Some(Slot::Bind(name, value)) => {
                    push_named(&mut template, name.as_str());
                    slots.push((name, Some(value)));
                    proof {
                        assert(slot_texts(slots@) =~= slot_texts(before).push(
                            (name@, Some(value@)),
                        ));
                    }
                },
                None => {
                    proof {
                        lemma_no_chain(*hir, sources@, params@, operands@, i + 1, total);
                    }
                    return None;
                },
            }
        }
        i = i + 1;
    }
    Some(write_s_call(template.as_str(), &slots))
}

/// The `s!` call that a body is.
pub open spec fn sketch_of(hir: Hir, sources: Seq<usize>, params: ParamsView, value: usize) -> Option<
    Seq<char>,
> {
    let body = hir.untailed(value);
    if starts_format(hir, body) {
        match hir.node(body).format {
            Some(f) => format_call(hir, sources, params, hir.formats@[f as int]),
            None => None,
        }
    } else {
        match hir.kind(body) {
            Kind::Binary { op, lhs: _, rhs: _ } => if op is Add && hir.stringy(
                hir.node(body).ty,
            ) {
                concat_call(hir, sources, params, body)
            } else {
                None
            },
            _ => None,
        }
    }
}

/// The `s!("..")` help the flagged body maps to: a `format!` body or a `+` chain
/// renders concretely; for anything else the diagnostic shows the generic
/// spelling.
pub fn s_sketch(hir: &Hir, sources: &Vec<usize>, params: &Params, value: usize) -> (r: Option<
    String,
>)
    requires
        hir.wf(),
        hir.has(value),
        sources_fit(*hir, sources@, params@),
    ensures
        text::text_opt(r) == sketch_of(*hir, sources@, params@, value),
{
    let body: usize = hir.strip_tail(value);
    proof {
        assert(hir.node_wf(body));
    }
    if is_format_call(hir, body) {
        return match hir.nodes[body].format {
            Some(f) => {
                let format: &FormatArgs = &hir.formats[f];
                proof {
                    assert forall|i: int| 0 <= i < format.args@.len() implies hir::opt_below(
                        (#[trigger] format.args@[i]).expr,
                        hir.nodes@.len() as int,
                    ) by {
                        assert(hir::opt_below(
                            hir.formats@[f as int].args@[i].expr,
                            body as int,
                        ));
                    }
                }
                format_sketch(hir, sources, params, format)
            },
            None => None,
        };
    }
    match &hir.nodes[body].kind {
        Kind::Binary { op, .. } => if *op == BinOp::Add && hir.is_string_ty(hir.nodes[body].ty) {
            concat_sketch(hir, sources, params, body)
        } else {
            None
        },
        _ => None,
    }
}

/// The parameter and the value of a function with one parameter.
pub open spec fn one_param_fn(hir: Hir, n: usize) -> Option<(usize, usize)> {
    let (params, body) = match hir.kind(n) {
        Kind::Item { item: _, params, body } => (params@, body),
        Kind::ImplItem { inherent: _, params, body } => (params@, body),
        _ => (seq![], None),
    };
    match body {
        Some(value) => if params.len() == 1 {
            match hir.kind(params[0]) {
                Kind::Param { pat } => Some((pat, value)),
                _ => None,
            }
        } else {
            None
        },
        None => None,
    }
}

/// The parameter and the value of the function that a map applies: a closure, or
/// a function or method of this crate that a path names.
pub open spec fn mapped(hir: Hir, func: usize) -> Option<(usize, usize)> {
    match (signal_map::one_param_closure(hir, func), hir.node(hir.undropped(func)).names_fn) {
        (Some(parts), _) => Some(parts),
        (None, Some(n)) => if hir.kind(hir.undropped(func)) is Path && hir.has(n) {
            one_param_fn(hir, n)
        } else {
            None
        },
        (None, None) => None,
    }
}

fn fn_parts(hir: &Hir, n: usize) -> (r: Option<(usize, usize)>)
    requires
        hir.wf(),
        hir.has(n),
    ensures
        r == one_param_fn(*hir, n),
        r matches Some((pat, value)) ==> hir.has(pat) && hir.has(value),
{
    proof {
        assert(hir.node_wf(n));
    }
    let (params, value) = match &hir.nodes[n].kind {
        Kind::Item { params, body: Some(value), .. } => (params, *value),
        Kind::ImplItem { params, body: Some(value), .. } => (params, *value),
        _ => {
            return None;
        },
    };
    if params.len() != 1 {
        return None;
    }
    let param: usize = params[0];
    proof {
        assert(hir.node_wf(param));
    }
    match &hir.nodes[param].kind {
        Kind::Param { pat } => Some((*pat, value)),
        _ => None,
    }
}

/// The parameter and the value of the function that a map applies.
pub fn mapped_fn(hir: &Hir, func: usize) -> (r: Option<(usize, usize)>)
    requires
        hir.wf(),
        hir.has(func),
    ensures
        r == mapped(*hir, func),
        r matches Some((pat, value)) ==> hir.has(pat) && hir.has(value),
{
    if let Some(parts) = signal_map::closure_parts(hir, func) {
        return Some(parts);
    }
    let path: usize = hir.peel_drop_temps(func);
    match &hir.nodes[path].kind {
        Kind::Path { .. } => match hir.nodes[path].names_fn {
            Some(n) => if n < hir.nodes.len() {
                fn_parts(hir, n)
            } else {
                None
            },
            None => None,
        },
        _ => None,
    }
}

/// The body only converts the parameter: `|v| v.to_string()`.
pub open spec fn plain_conversion(hir: Hir, value: usize, all: Seq<usize>) -> bool {
    let stripped = hir.untailed(value);
    let found = triggers_of(hir, stripped, all);
    &&& found.len() == 1
    &&& found[0] == (Trigger::ToString, stripped)
    &&& hir.first_operand(stripped) matches Some(receiver)
    &&& signal_map::param_read(hir, hir.unwrapped(receiver), all) is Some
}

fn is_plain_conversion(hir: &Hir, value: usize, all: &Vec<usize>) -> (r: bool)
    requires
        hir.wf(),
        hir.has(value),
    ensures
        r == plain_conversion(*hir, value, all@),
{
    let stripped: usize = hir.strip_tail(value);
    let found: Vec<(Trigger, usize)> = triggers(hir, stripped, all);
    if found.len() != 1 || found[0].0 != Trigger::ToString || found[0].1 != stripped {
        return false;
    }
    match hir.first_arg(stripped) {
        Some(receiver) => signal_map::param_hir_id(hir, hir.strip_wraps(receiver), all).is_some(),
        None => false,
    }
}

/// The help for a map over `receiver`: the `s!` call, or the generic spelling.
pub open spec fn s_help(sketch: Option<Seq<char>>, receiver: Seq<char>) -> Seq<char> {
    match sketch {
        Some(sketch) => "use `"@ + sketch
            + "` — `s!` subscribes to its placeholders the way `format!` captures names"@,
        None => "use `s!` — `s!(\"{k}k\", k = &"@ + receiver + ".map(|c| c / 1000))`"@,
    }
}

/// The help for a body that decides between strings.
pub open spec fn branch_help(receiver: Seq<char>) -> Seq<char> {
    "a branch condition becomes a signal too — `"@ + receiver + ".equal_to(0).select(..)` / `"@
        + receiver
        + ".ge(10_000)` — so the decision is a signal instead of a re-run closure"@
}

/// The source of the receiver, or a name that stands for it.
pub open spec fn receiver_text(hir: Hir, receiver: usize) -> Seq<char> {
    match hir.source(receiver) {
        Some(text) => text,
        None => "count"@,
    }
}

/// What is said of a map over `receiver` whose function gives `value`.
pub open spec fn map_finding(
    hir: Hir,
    text_macro: Option<usize>,
    n: usize,
    receiver: usize,
    pat: usize,
    value: usize,
) -> Option<DiagnosticView> {
    let sources = signal_map::signal_sources(hir, receiver);
    let params = signal_map::params_of(hir, pat, sources.len() as int);
    let found = triggers_of(hir, value, params.all);
    let name = receiver_text(hir, receiver);
    if !hir.stringy(hir.node(value).ty) || params.all.len() == 0 || found.len() == 0
        || plain_conversion(hir, value, params.all) || text_bound(
        hir,
        n,
        text_macro,
        hir.nodes@.len() as int,
    ) {
        None
    } else {
        let finding = DiagnosticView::bare(
            Lint::ManualStringSignal,
            hir.node(n).span,
            message(),
        ).with(
            RemarkView::Label(hir.node(found[0].1).span, "the string is built by hand here"@),
        ).with(RemarkView::Help(s_help(sketch_of(hir, sources, params, value), name)));
        Some(
            if branches_string(hir, value) {
                finding.with(RemarkView::Help(branch_help(name)))
            } else {
                finding
            },
        )
    }
}

/// What is said of an expression.
pub open spec fn finding_at(hir: Hir, text_macro: Option<usize>, n: usize) -> Option<
    DiagnosticView,
> {
    if hir.node(n).span.expanded() {
        None
    } else {
        match signal_map::map_parts(hir, n) {
            Some((receiver, func)) => match mapped(hir, func) {
                Some((pat, value)) => map_finding(hir, text_macro, n, receiver, pat, value),
                None => None,
            },
            None => None,
        }
    }
}

fn check_map(
    hir: &Hir,
    text_macro: Option<usize>,
    n: usize,
    receiver: usize,
    pat: usize,
    value: usize,
) -> (r: Option<Diagnostic>)
    requires
        hir.wf(),
        hir.has(n),
        hir.has(receiver),
        hir.has(pat),
        hir.has(value),
    ensures
        diagnostics::found(r) == map_finding(*hir, text_macro, n, receiver, pat, value),
{
    proof {
        assert(hir.node_wf(value));
    }
    if !hir.is_string_ty(hir.nodes[value].ty) {
        return None;
    }
    let sources: Vec<usize> = signal_map::sources(hir, receiver);
    let params: Params = Params::new(hir, pat, sources.len());
    if params.all.len() == 0 {
        return None;
    }
    let found: Vec<(Trigger, usize)> = triggers(hir, value, &params.all);
    if found.len() == 0 || is_plain_conversion(hir, value, &params.all) || reaches_text(
        hir,
        n,
        text_macro,
        hir.nodes.len(),
    ) {
        return None;
    }
    let sketch: Option<String> = s_sketch(hir, &sources, &params, value);
    let name: String = match hir.snippet_opt(receiver) {
        Some(text) => text,
        None => "count".to_owned(),
    };
    let label: Span = hir.nodes[found[0].1].span;
    let mut finding: Diagnostic = Diagnostic::bare(
        Lint::ManualStringSignal,
        hir.nodes[n].span,
        "this `map` builds a string signal by hand; `s!` formats signals directly",
    );
    finding.span_label(label, "the string is built by hand here".to_owned());
    finding.help(
        match sketch {
            Some(sketch) => text::cat3(
                "use `",
                sketch.as_str(),
                "` — `s!` subscribes to its placeholders the way `format!` captures names",
            ),
            None => text::cat3(
                "use `s!` — `s!(\"{k}k\", k = &",
                name.as_str(),
                ".map(|c| c / 1000))`",
            ),
        },
    );
    if has_string_branch(hir, value) {
        finding.help(
            text::cat5(
                "a branch condition becomes a signal too — `",
                name.as_str(),
                ".equal_to(0).select(..)` / `",
                name.as_str(),
                ".ge(10_000)` — so the decision is a signal instead of a re-run closure",
            ),
        );
    }
    Some(finding)
}

/// Flags a `SignalExt::map` or `nami::map` whose function produces a `String` or
/// `Str` and builds it by hand from a parameter. A result that reaches an
/// `IntoText`/`IntoLabel` parameter is `manual_text_map`'s case, and a plain
/// conversion of the value is `map_into`'s.
pub fn check_expr(hir: &Hir, text_macro: Option<usize>, n: usize) -> (r: Option<Diagnostic>)
    requires
        hir.wf(),
        hir.has(n),
    ensures
        diagnostics::found(r) == finding_at(*hir, text_macro, n),
{
    if hir.nodes[n].span.from_expansion() {
        return None;
    }
    match signal_map::map_call(hir, n) {
        Some((receiver, func)) => match mapped_fn(hir, func) {
            Some((pat, value)) => check_map(hir, text_macro, n, receiver, pat, value),
            None => None,
        },
        None => None,
    }
}

/// What builds a string by hand is told apart: a `format!`, a sum of strings, a
/// `.to_string()` and a `push_str`, each over something that mentions the
/// closure's parameter; what mentions none of its names builds nothing.
pub proof fn string_building_is_told_apart(hir: Hir, n: usize, all: Seq<usize>)
    ensures
        (hir.node(n).mac matches Some(mac) && mac.is_format) && signal_map::mentions(hir, n, all)
            ==> trigger_at(hir, n, all) == Some(Trigger::Format),
        hir.node(n).mac is None && signal_map::mentions(hir, n, all) ==> match hir.kind(n) {
            Kind::Binary { op: BinOp::Add, lhs: _, rhs: _ } => hir.stringy(hir.node(n).ty)
                ==> trigger_at(hir, n, all) == Some(Trigger::Concat),
            Kind::AssignOp { op: BinOp::Add, lhs, rhs: _ } => hir.stringy(hir.node(lhs).ty)
                ==> trigger_at(hir, n, all) == Some(Trigger::Concat),
            _ => true,
        },
        hir.node(n).mac is None && hir.resolves_item(n, Known::ToString) && (hir.first_operand(
            n,
        ) matches Some(receiver) && signal_map::mentions(hir, receiver, all)) ==> trigger_at(
            hir,
            n,
            all,
        ) == Some(Trigger::ToString),
        trigger_at(hir, n, all) == Some(Trigger::Concat) ==> match hir.kind(n) {
            Kind::Binary { op, lhs: _, rhs: _ } => op == BinOp::Add && hir.stringy(hir.node(n).ty),
            Kind::AssignOp { op, lhs, rhs: _ } => op == BinOp::Add && hir.stringy(
                hir.node(lhs).ty,
            ),
            _ => false,
        },
{
}

/// A string that ends in a text position is left to the lint on those; nothing is
/// said either of a lone `.to_string()` of the parameter, of a closure that
/// gives no string, and of one that builds none.
pub proof fn text_positions_are_left_alone(
    hir: Hir,
    text_macro: Option<usize>,
    n: usize,
    receiver: usize,
    pat: usize,
    value: usize,
)
    ensures
        map_finding(hir, text_macro, n, receiver, pat, value) is Some ==> {
            let sources = signal_map::signal_sources(hir, receiver);
            let params = signal_map::params_of(hir, pat, sources.len() as int);
            let found = triggers_of(hir, value, params.all);
            &&& hir.stringy(hir.node(value).ty)
            &&& found.len() > 0
            &&& !text_bound(hir, n, text_macro, hir.nodes@.len() as int)
            &&& !plain_conversion(hir, value, params.all)
        },
        map_finding(hir, text_macro, n, receiver, pat, value) matches Some(finding) ==> {
            let sources = signal_map::signal_sources(hir, receiver);
            let params = signal_map::params_of(hir, pat, sources.len() as int);
            &&& finding.span == hir.node(n).span
            &&& finding.remarks[0] matches RemarkView::Label(span, _)
            &&& span == hir.node(triggers_of(hir, value, params.all)[0].1).span
            &&& finding.remarks[1] == RemarkView::Help(
                s_help(sketch_of(hir, sources, params, value), receiver_text(hir, receiver)),
            )
            &&& finding.remarks.len() == (if branches_string(hir, value) {
                3int
            } else {
                2
            })
        },
{
}

} // verus!
