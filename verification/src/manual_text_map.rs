//! `manual_text_map`: `.map(|v| format!(..))` over a signal whose result only
//! feeds a text position; `text!` formats the signal itself.

use crate::diagnostics;
use crate::diagnostics::{Applicability, Diagnostic, DiagnosticView, RemarkView};
use crate::format_args;
use crate::format_args::{ArgKind, FormatArg, FormatPiece};
use crate::hir;
use crate::hir::{Hir, Ident, Kind, Namespace, Span, TyKind};
use crate::imports;
use crate::imports::{Bare, Module, Query};
use crate::known::Known;
use crate::lexer;
use crate::lint::Lint;
use crate::macro_call;
use crate::macro_call::{TextCall, TextCallView};
use crate::signal_map;
use crate::signal_map::{Params, ParamsView};
use crate::template;
use crate::template::{Piece, PieceView, Rendered};
use crate::text;
use vstd::prelude::*;
use vstd::utf8::*;

verus! {

/// `String`, `Str` or `str` behind any references: the string-shaped output a
/// text-feeding map must produce.
pub open spec fn text_typed(hir: Hir, t: usize) -> bool {
    let t = hir.referent(t);
    hir.types@[t as int].kind is Str || hir.ty_in(t, seq![Known::StringTy, Known::WateruiStr])
}

/// Whether the type is `String`, `Str` or `&str`.
pub fn is_string_ty(hir: &Hir, t: usize) -> (r: bool)
    requires
        hir.wf(),
        t < hir.types.len(),
    ensures
        r == text_typed(*hir, t),
{
    let t: usize = hir.peel_refs(t);
    match &hir.types[t].kind {
        TyKind::Str => true,
        _ => hir.is_adt_in(t, &[Known::StringTy, Known::WateruiStr]),
    }
}

/// The expression without the conversions and statement-free blocks around a
/// mapped string.
pub open spec fn mapped_value(hir: Hir, n: usize) -> usize
    decreases n,
{
    match (hir.kind(n), hir.sole_tail(n), hir.first_operand(n)) {
        (Kind::DropTemps { inner }, _, _) => if inner < n {
            mapped_value(hir, inner)
        } else {
            n
        },
        (_, Some(tail), _) => if tail < n {
            mapped_value(hir, tail)
        } else {
            n
        },
        (_, _, Some(first)) => if hir.calls(n, seq![Known::Into, Known::From]) && text_typed(
            hir,
            hir.node(n).ty,
        ) && first < n {
            mapped_value(hir, first)
        } else {
            n
        },
        _ => n,
    }
}

/// `format!(..).into()`, `String::from(format!(..))`, `{ format!(..) }`: tail
/// conversions and blocks around a mapped string are transparent to this lint.
pub fn strip_tail(hir: &Hir, n: usize) -> (r: usize)
    requires
        hir.wf(),
        hir.has(n),
    ensures
        r == mapped_value(*hir, n),
        r <= n,
    decreases n,
{
    proof {
        assert(hir.node_wf(n));
    }
    if let Kind::DropTemps { inner } = &hir.nodes[n].kind {
        return strip_tail(hir, *inner);
    }
    if let Some(tail) = hir.bare_tail(n) {
        return strip_tail(hir, tail);
    }
    if let Some(first) = hir.first_arg(n) {
        if hir.is_call_to(n, &[Known::Into, Known::From]) && is_string_ty(hir, hir.nodes[n].ty) {
            return strip_tail(hir, first);
        }
    }
    n
}

/// The code comes straight out of `text!`, by name or by definition.
pub open spec fn from_text(hir: Hir, n: usize, text_macro: Option<usize>) -> bool {
    match hir.node(n).bang {
        Some(bang) => bang.name@ == "text"@ || (text_macro is Some && bang.def == text_macro),
        None => false,
    }
}

/// A node above `n` is a call of `item`.
pub open spec fn inside_call(hir: Hir, n: usize, item: Known) -> bool
    decreases hir.nodes@.len() - n,
{
    match hir.up(n) {
        Some(p) => (hir.is_call(p) && hir.calls_item(p, item)) || inside_call(hir, p, item),
        None => false,
    }
}

/// The `let` is one of `text!`'s capture bindings: it comes out of the macro,
/// inside the call that carries the captures.
pub open spec fn is_capture(hir: Hir, local: usize, text_macro: Option<usize>) -> bool {
    from_text(hir, local, text_macro) && inside_call(hir, local, Known::LocalizedWith)
}

/// Whether the code comes straight out of `text!`: by macro name, or by
/// definition, which covers `use .. as ..` aliases.
pub fn is_from_text(hir: &Hir, n: usize, text_macro: Option<usize>) -> (r: bool)
    requires
        hir.has(n),
    ensures
        r == from_text(*hir, n, text_macro),
{
    match &hir.nodes[n].bang {
        Some(bang) => {
            text::str_eq(bang.name.as_str(), "text") || (text_macro.is_some() && bang.def
                == text_macro)
        },
        None => false,
    }
}

fn is_inside_call(hir: &Hir, n: usize, item: Known) -> (r: bool)
    requires
        hir.wf(),
        hir.has(n),
    ensures
        r == inside_call(*hir, n, item),
    decreases hir.nodes.len() - n,
{
    match hir.parent(n) {
        Some(p) => (hir.call(p) && hir.is_call_of(p, item)) || is_inside_call(hir, p, item),
        None => false,
    }
}

/// Whether `local` is one of `text!`'s capture bindings: the macro emits
/// `let <name> = (<expr>).to_owned()` inside the `Text::localized_with` call
/// that carries them. A hand-written `localized_with` block that happens to
/// `.to_owned()` a map does not qualify: its `let` carries no expansion mark.
pub fn inside_text_expansion(hir: &Hir, local: usize, text_macro: Option<usize>) -> (r: bool)
    requires
        hir.wf(),
        hir.has(local),
    ensures
        r == is_capture(*hir, local, text_macro),
{
    is_from_text(hir, local, text_macro) && is_inside_call(hir, local, Known::LocalizedWith)
}

/// What becomes of an expression's value.
#[derive(Clone, Copy, Debug, PartialEq, Eq, Structural)]
pub enum Flow {
    /// It ends as an argument of a call.
    Arg { call: usize, arg: usize },
    /// It initializes a `let`.
    LetInit(usize),
    /// It is the value of a `text!` capture, made by this `let`.
    TextMacro(usize),
    /// It is consumed by something else.
    End,
}

/// One of the arms evaluates to `body`.
pub open spec fn arm_yields(hir: Hir, arms: Seq<usize>, body: usize) -> bool {
    exists|i: int|
        0 <= i < arms.len() && (hir.kind(#[trigger] arms[i]) matches Kind::Arm {
            pat: _,
            guard: _,
            body: b,
        } && b == body)
}

/// Whether one of the arms evaluates to `body`.
pub fn is_arm_body(hir: &Hir, arms: &Vec<usize>, body: usize) -> (r: bool)
    requires
        hir::all_below(arms@, hir.nodes@.len() as int),
    ensures
        r == arm_yields(*hir, arms@, body),
{
    let mut i: usize = 0;
    while i < arms.len()
        invariant
            i <= arms.len(),
            hir::all_below(arms@, hir.nodes@.len() as int),
            forall|k: int|
                0 <= k < i ==> !(hir.kind(#[trigger] arms@[k]) matches Kind::Arm {
                    pat: _,
                    guard: _,
                    body: b,
                } && b == body),
        decreases arms.len() - i,
    {
        if let Kind::Arm { body: b, .. } = &hir.nodes[arms[i]].kind {
            if *b == body {
                assert(hir.kind(arms@[i as int]) matches Kind::Arm { pat: _, guard: _, body: b }
                    && b == body);
                return true;
            }
        }
        i = i + 1;
    }
    false
}

/// The value of `current` is that of the expression `p`: drop-temps, a
/// statement-free block, a branch of an `if` or an arm of a `match`.
pub open spec fn yields(hir: Hir, p: usize, current: usize) -> bool {
    match hir.kind(p) {
        Kind::DropTemps { inner } => inner == current,
        Kind::BlockExpr { .. } => hir.sole_tail(p) == Some(current),
        Kind::If { cond: _, then, els } => then == current || els == Some(current),
        Kind::Match { scrutinee: _, arms, source: _ } => arm_yields(hir, arms@, current),
        _ => false,
    }
}

/// The node `p`, no expression, lets the value of `current` through: a
/// statement-free block, or an arm.
pub open spec fn lets_through(hir: Hir, p: usize, current: usize) -> bool {
    match hir.kind(p) {
        Kind::Block { stmts, tail } => stmts@.len() == 0 && tail == Some(current),
        Kind::Arm { pat: _, guard: _, body } => body == current,
        _ => false,
    }
}

/// Whether the value of `current` is that of the expression `p`.
pub fn is_yielded(hir: &Hir, p: usize, current: usize) -> (r: bool)
    requires
        hir.wf(),
        hir.has(p),
    ensures
        r == yields(*hir, p, current),
{
    proof {
        assert(hir.node_wf(p));
    }
    match &hir.nodes[p].kind {
        Kind::DropTemps { inner } => *inner == current,
        Kind::BlockExpr { .. } => hir.bare_tail(p) == Some(current),
        Kind::If { then, els, .. } => *then == current || *els == Some(current),
        Kind::Match { arms, .. } => is_arm_body(hir, arms, current),
        _ => false,
    }
}

/// Whether the node `p` lets the value of `current` through.
pub fn is_let_through(hir: &Hir, p: usize, current: usize) -> (r: bool)
    requires
        hir.has(p),
    ensures
        r == lets_through(*hir, p, current),
{
    match &hir.nodes[p].kind {
        Kind::Block { stmts, tail } => stmts.len() == 0 && *tail == Some(current),
        Kind::Arm { body, .. } => *body == current,
        _ => false,
    }
}

/// The call only rewraps a mapped signal that is its first operand.
pub open spec fn rewraps(hir: Hir, call: usize) -> bool {
    hir.calls(call, seq![Known::ToOwned, Known::Clone]) || hir.calls(
        call,
        signal_map::result_adapters(),
    )
}

/// What becomes of the value of `current`, seen from `at`, which it has been
/// followed up to.
pub open spec fn flow_from(
    hir: Hir,
    at: usize,
    current: usize,
    text_macro: Option<usize>,
) -> Flow
    decreases hir.nodes@.len() - at,
{
    match hir.up(at) {
        Some(p) => if yields(hir, p, current) {
            flow_from(hir, p, p, text_macro)
        } else if lets_through(hir, p, current) {
            flow_from(hir, p, current, text_macro)
        } else if hir.is_call(p) {
            match hir.operand_place(p, current) {
                Some(i) => if i == 0 && rewraps(hir, p) {
                    flow_from(hir, p, p, text_macro)
                } else {
                    Flow::Arg { call: p, arg: current }
                },
                None => Flow::End,
            }
        } else {
            match hir.kind(p) {
                Kind::LetStmt { pat: _, ty: _, init, els: _ } => if init == Some(current) {
                    if hir.is_call(current) && hir.calls_item(current, Known::ToOwned)
                        && is_capture(hir, p, text_macro) {
                        Flow::TextMacro(p)
                    } else {
                        Flow::LetInit(p)
                    }
                } else {
                    Flow::End
                },
                _ => Flow::End,
            }
        },
        None => Flow::End,
    }
}

fn climb(hir: &Hir, at: usize, current: usize, text_macro: Option<usize>) -> (r: Flow)
    requires
        hir.wf(),
        hir.has(at),
        hir.has(current),
    ensures
        r == flow_from(*hir, at, current, text_macro),
        flow_in(*hir, r),
    decreases hir.nodes.len() - at,
{
    let p: usize = match hir.parent(at) {
        Some(p) => p,
        None => {
            return Flow::End;
        },
    };
    if is_yielded(hir, p, current) {
        return climb(hir, p, p, text_macro);
    }
    if is_let_through(hir, p, current) {
        return climb(hir, p, current, text_macro);
    }
    if hir.call(p) {
        return match hir.arg_index(p, current) {
            Some(i) => {
                if i == 0 && (hir.is_call_to(p, &[Known::ToOwned, Known::Clone])
                    || hir.is_call_to(
                    p,
                    &[
                        Known::SignalComputed,
                        Known::SignalWith,
                        Known::SignalCached,
                        Known::SignalDistinct,
                        Known::SignalInspect,
                        Known::IntoSignalFn,
                        Known::IntoComputedFn,
                    ],
                )) {
                    climb(hir, p, p, text_macro)
                } else {
                    Flow::Arg { call: p, arg: current }
                }
            },
            None => Flow::End,
        };
    }
    match &hir.nodes[p].kind {
        Kind::LetStmt { init, .. } => {
            if *init != Some(current) {
                return Flow::End;
            }
            if hir.call(current) && hir.is_call_of(current, Known::ToOwned)
                && inside_text_expansion(hir, p, text_macro) {
                Flow::TextMacro(p)
            } else {
                Flow::LetInit(p)
            }
        },
        _ => Flow::End,
    }
}

/// The nodes that a flow names are nodes, and its `let` is one.
pub open spec fn flow_in(hir: Hir, flow: Flow) -> bool {
    match flow {
        Flow::Arg { call, arg } => hir.has(call) && hir.has(arg),
        Flow::LetInit(local) => hir.has(local) && hir.kind(local) is LetStmt,
        Flow::TextMacro(local) => hir.has(local) && hir.kind(local) is LetStmt,
        Flow::End => true,
    }
}

/// Walks `expr`'s parents: adapter calls and transparent wrappers peel, an
/// argument position of a call reports `Arg`, a `let` initializer reports
/// `LetInit` (or `TextMacro` for `text!`'s `.to_owned()` capture), anything
/// else stops the walk.
pub fn flow(hir: &Hir, n: usize, text_macro: Option<usize>) -> (r: Flow)
    requires
        hir.wf(),
        hir.has(n),
    ensures
        r == flow_from(*hir, n, n, text_macro),
        flow_in(*hir, r),
{
    climb(hir, n, n, text_macro)
}

/// How an argument lands on an `IntoText`/`IntoLabel` parameter.
#[derive(Clone, Copy, Debug, PartialEq, Eq, Structural)]
pub enum TextPos {
    /// The callee is `text` itself: the whole call is replaced.
    WholeCall,
    /// Another callee's bound parameter: only the argument is replaced.
    Arg,
    /// Not a text position.
    Elsewhere,
}

/// Parameter bounds that take a text-producing value.
pub open spec fn text_bounds() -> Seq<Known> {
    seq![Known::IntoText, Known::IntoLabel]
}

/// How `arg` of `call` lands on a text parameter.
pub open spec fn text_place(hir: Hir, call: usize, arg: usize) -> TextPos {
    match (hir.node(call).callee, hir.operand_place(call, arg)) {
        (Some(callee), Some(i)) => if hir.bounded(call, i, text_bounds()) {
            if hir.is_def(callee, Known::TextFn) {
                TextPos::WholeCall
            } else {
                TextPos::Arg
            }
        } else {
            TextPos::Elsewhere
        },
        _ => TextPos::Elsewhere,
    }
}

/// Whether `arg` in `call` lands on an `IntoText`/`IntoLabel` parameter.
pub fn text_position(hir: &Hir, call: usize, arg: usize) -> (r: TextPos)
    requires
        hir.wf(),
        hir.has(call),
    ensures
        r == text_place(*hir, call, arg),
{
    let callee: usize = match hir.nodes[call].callee {
        Some(callee) => callee,
        None => {
            return TextPos::Elsewhere;
        },
    };
    match hir.arg_index(call, arg) {
        Some(i) => {
            if !hir.arg_has_bound(call, i, &[Known::IntoText, Known::IntoLabel]) {
                TextPos::Elsewhere
            } else if hir.def_path_eq(callee, Known::TextFn) {
                TextPos::WholeCall
            } else {
                TextPos::Arg
            }
        },
        None => TextPos::Elsewhere,
    }
}

/// A use of a `let`-bound map that lands in text.
#[derive(Clone, Copy, Debug, PartialEq, Eq, Structural)]
pub enum TextUse {
    /// The use is a `text!` capture, made by this `let`.
    Macro(usize),
    /// The use's value is an argument of a text-position call.
    Arg,
}

/// Where the map's result flows.
#[derive(Clone, Copy, Debug, PartialEq, Eq, Structural)]
pub enum Position {
    /// `text(<arg>)`: the fix replaces the whole call.
    TextCall(usize),
    /// `callee(<arg>)` where the parameter is `IntoText`/`IntoLabel`: the fix
    /// replaces the argument only.
    BoundArg(usize),
    /// The map feeds a `text!` slot, `text!("..{slot}..", slot = <map>)`,
    /// through this `let`.
    TextMacro(usize),
    /// `let <name> = <map>` with `<name>` reaching a text position.
    LetBound { local: usize, text_use: TextUse },
    /// Nowhere text-shaped.
    Silent,
}

/// The binding that a `let` makes, where it makes one.
pub open spec fn let_binding(hir: Hir, local: usize) -> Option<(usize, Ident)> {
    match hir.kind(local) {
        Kind::LetStmt { pat, ty: _, init: _, els: _ } => match hir.kind(pat) {
            Kind::Binding { name, id, sub: _ } => Some((id, name)),
            _ => None,
        },
        _ => None,
    }
}

/// The innermost block above `n`.
pub open spec fn block_above(hir: Hir, n: usize) -> Option<usize>
    decreases hir.nodes@.len() - n,
{
    match hir.up(n) {
        Some(p) => if hir.kind(p) is Block {
            Some(p)
        } else {
            block_above(hir, p)
        },
        None => None,
    }
}

fn enclosing_block(hir: &Hir, n: usize) -> (r: Option<usize>)
    requires
        hir.wf(),
        hir.has(n),
    ensures
        r == block_above(*hir, n),
        r matches Some(b) ==> hir.has(b),
    decreases hir.nodes.len() - n,
{
    match hir.parent(n) {
        Some(p) => match &hir.nodes[p].kind {
            Kind::Block { .. } => Some(p),
            _ => enclosing_block(hir, p),
        },
        None => None,
    }
}

/// How a read of a local lands in text, if it does.
pub open spec fn text_use_of(hir: Hir, read: usize, text_macro: Option<usize>) -> Option<TextUse> {
    match flow_from(hir, read, read, text_macro) {
        Flow::TextMacro(capture) => Some(TextUse::Macro(capture)),
        Flow::Arg { call, arg } => if text_place(hir, call, arg) is Elsewhere {
            None
        } else {
            Some(TextUse::Arg)
        },
        _ => None,
    }
}

/// The first read of the local `id` in `exprs`, from `i` on, that lands in text.
pub open spec fn first_text_use(
    hir: Hir,
    exprs: Seq<usize>,
    i: int,
    id: usize,
    text_macro: Option<usize>,
) -> Option<TextUse>
    decreases exprs.len() - i,
{
    if i < 0 || i >= exprs.len() {
        None
    } else if hir.local(exprs[i]) == Some(id) && text_use_of(hir, exprs[i], text_macro) is Some {
        text_use_of(hir, exprs[i], text_macro)
    } else {
        first_text_use(hir, exprs, i + 1, id, text_macro)
    }
}

/// Where a `let`-bound map reaches text: by the first read of its binding in
/// the enclosing block, closures included, that lands in text.
pub open spec fn let_place(hir: Hir, local: usize, text_macro: Option<usize>) -> Position {
    match (let_binding(hir, local), block_above(hir, local)) {
        (Some((id, _)), Some(block)) => match first_text_use(
            hir,
            hir.exprs(block, true),
            0,
            id,
            text_macro,
        ) {
            Some(text_use) => Position::LetBound { local, text_use },
            None => Position::Silent,
        },
        _ => Position::Silent,
    }
}

/// The nodes that a position names are nodes, and its `let`s are such.
pub open spec fn position_in(hir: Hir, position: Position) -> bool {
    match position {
        Position::TextCall(call) => hir.has(call),
        Position::BoundArg(arg) => hir.has(arg),
        Position::TextMacro(local) => hir.has(local) && hir.kind(local) is LetStmt,
        Position::LetBound { local, text_use } => {
            &&& hir.has(local)
            &&& let_binding(hir, local) is Some
            &&& text_use matches TextUse::Macro(capture) ==> hir.has(capture)
                && hir.kind(capture) is LetStmt
        },
        Position::Silent => true,
    }
}

/// The use-position of a `let`-bound map that reaches text.
pub fn let_position(hir: &Hir, local: usize, text_macro: Option<usize>) -> (r: Position)
    requires
        hir.wf(),
        hir.has(local),
    ensures
        r == let_place(*hir, local, text_macro),
        position_in(*hir, r),
{
    proof {
        assert(hir.node_wf(local));
    }
    let id: usize = match &hir.nodes[local].kind {
        Kind::LetStmt { pat, .. } => match &hir.nodes[*pat].kind {
            Kind::Binding { id, .. } => *id,
            _ => {
                return Position::Silent;
            },
        },
        _ => {
            return Position::Silent;
        },
    };
    let block: usize = match enclosing_block(hir, local) {
        Some(block) => block,
        None => {
            return Position::Silent;
        },
    };
    let exprs: Vec<usize> = hir.exprs_in(block, true);
    let mut i: usize = 0;
    while i < exprs.len()
        invariant
            i <= exprs.len(),
            hir.wf(),
            hir.has(block),
            hir.has(local),
            hir::all_below(exprs@, block + 1),
            exprs@ == hir.exprs(block, true),
            let_binding(*hir, local) matches Some(b) && b.0 == id,
            block_above(*hir, local) == Some(block),
            first_text_use(*hir, exprs@, 0, id, text_macro) == first_text_use(
                *hir,
                exprs@,
                i as int,
                id,
                text_macro,
            ),
        decreases exprs.len() - i,
    {
        let read: usize = exprs[i];
        if hir.res_local(read) == Some(id) {
            match flow(hir, read, text_macro) {
                Flow::TextMacro(capture) => {
                    return Position::LetBound { local, text_use: TextUse::Macro(capture) };
                },
                Flow::Arg { call, arg } => match text_position(hir, call, arg) {
                    TextPos::WholeCall | TextPos::Arg => {
                        return Position::LetBound { local, text_use: TextUse::Arg };
                    },
                    TextPos::Elsewhere => {},
                },
                _ => {},
            }
        }
        i = i + 1;
    }
    Position::Silent
}

/// Where the result of the map `n` flows.
pub open spec fn place_of(hir: Hir, n: usize, text_macro: Option<usize>) -> Position {
    match flow_from(hir, n, n, text_macro) {
        Flow::TextMacro(capture) => Position::TextMacro(capture),
        Flow::Arg { call, arg } => match text_place(hir, call, arg) {
            TextPos::WholeCall => Position::TextCall(call),
            TextPos::Arg => Position::BoundArg(arg),
            TextPos::Elsewhere => Position::Silent,
        },
        Flow::LetInit(local) => let_place(hir, local, text_macro),
        Flow::End => Position::Silent,
    }
}

/// Where this map's result flows.
pub fn position(hir: &Hir, n: usize, text_macro: Option<usize>) -> (r: Position)
    requires
        hir.wf(),
        hir.has(n),
    ensures
        r == place_of(*hir, n, text_macro),
        position_in(*hir, r),
{
    match flow(hir, n, text_macro) {
        Flow::TextMacro(capture) => Position::TextMacro(capture),
        Flow::Arg { call, arg } => match text_position(hir, call, arg) {
            TextPos::WholeCall => Position::TextCall(call),
            TextPos::Arg => Position::BoundArg(arg),
            TextPos::Elsewhere => Position::Silent,
        },
        Flow::LetInit(local) => let_position(hir, local, text_macro),
        Flow::End => Position::Silent,
    }
}

/// What the map's closure body does with its parameter.
#[derive(Clone, Copy, Debug, PartialEq, Eq, Structural)]
pub enum Mapped {
    /// `format!(..)`: its arguments and template, by place in `Hir::formats`.
    Format(usize),
    /// `v.to_string()` or `v.clone()` over a string: the body renders the
    /// parameter, which is the conversion's receiver.
    Direct(usize),
    /// A string conversion over a projection of a parameter,
    /// `u.name.to_string()`: flagged, but a `text!` slot can't name it.
    Projected(usize),
    /// Nothing text-shaped: the body isn't a string made from the parameter.
    Silent,
}

/// What a bare read of the parameter `id` as text amounts to.
pub open spec fn read_as_text(params: ParamsView, id: usize, n: usize) -> Mapped {
    if params.source_of(id) is Some {
        Mapped::Direct(n)
    } else {
        Mapped::Projected(n)
    }
}

/// What the body of the map closure produces from the parameter.
pub open spec fn body_class(hir: Hir, body: usize, params: ParamsView) -> Mapped {
    let n = mapped_value(hir, body);
    if !hir.is_call(n) {
        let inner = hir.unwrapped(n);
        match signal_map::param_read(hir, inner, params.all) {
            Some(id) => if text_typed(hir, hir.node(inner).ty) {
                read_as_text(params, id, inner)
            } else {
                Mapped::Silent
            },
            None => Mapped::Silent,
        }
    } else if is_format(hir, n) {
        Mapped::Format(hir.node(n).format->0)
    } else if hir.calls_item(n, Known::ToString) || (hir.calls_item(n, Known::Clone) && text_typed(
        hir,
        hir.node(n).ty,
    )) {
        match hir.first_operand(n) {
            Some(first) => {
                let receiver = hir.unwrapped(first);
                match signal_map::param_read(hir, receiver, params.all) {
                    Some(id) => read_as_text(params, id, receiver),
                    None => if signal_map::mentions(hir, receiver, params.all) {
                        Mapped::Projected(receiver)
                    } else {
                        Mapped::Silent
                    },
                }
            },
            None => Mapped::Silent,
        }
    } else {
        Mapped::Silent
    }
}

/// The expression is a `format!` call whose template is at hand.
pub open spec fn is_format(hir: Hir, n: usize) -> bool {
    match hir.node(n).mac {
        Some(mac) => mac.is_format && hir.node(n).format is Some,
        None => false,
    }
}

/// The expressions that a classification names are nodes.
pub open spec fn mapped_in(hir: Hir, mapped: Mapped) -> bool {
    match mapped {
        Mapped::Format(f) => f < hir.formats@.len() && forall|i: int|
            0 <= i < hir.formats@[f as int].args@.len() ==> hir::opt_below(
                #[trigger] hir.formats@[f as int].args@[i].expr,
                hir.nodes@.len() as int,
            ),
        Mapped::Direct(n) => hir.has(n),
        Mapped::Projected(n) => hir.has(n),
        Mapped::Silent => true,
    }
}

/// Classifies the closure body: what it produces from the parameter.
pub fn classify_body(hir: &Hir, body: usize, params: &Params) -> (r: Mapped)
    requires
        hir.wf(),
        hir.has(body),
    ensures
        r == body_class(*hir, body, params@),
        mapped_in(*hir, r),
{
    let n: usize = strip_tail(hir, body);
    proof {
        assert(hir.node_wf(n));
    }
    if !hir.call(n) {
        let inner: usize = hir.strip_wraps(n);
        proof {
            assert(hir.node_wf(inner));
        }
        if let Some(id) = signal_map::param_hir_id(hir, inner, &params.all) {
            if is_string_ty(hir, hir.nodes[inner].ty) {
                return if params.source_of(id).is_some() {
                    Mapped::Direct(inner)
                } else {
                    Mapped::Projected(inner)
                };
            }
        }
        return Mapped::Silent;
    }
    if let (Some(mac), Some(format)) = (hir.nodes[n].mac, hir.nodes[n].format) {
        if mac.is_format {
            return Mapped::Format(format);
        }
    }
    let converts: bool = hir.is_call_of(n, Known::ToString) || (hir.is_call_of(n, Known::Clone)
        && is_string_ty(hir, hir.nodes[n].ty));
    if !converts {
        return Mapped::Silent;
    }
    let receiver: usize = match hir.first_arg(n) {
        Some(first) => hir.strip_wraps(first),
        None => {
            return Mapped::Silent;
        },
    };
    match signal_map::param_hir_id(hir, receiver, &params.all) {
        Some(id) => if params.source_of(id).is_some() {
            Mapped::Direct(receiver)
        } else {
            Mapped::Projected(receiver)
        },
        None => if signal_map::touches_param(hir, receiver, &params.all) {
            Mapped::Projected(receiver)
        } else {
            Mapped::Silent
        },
    }
}

/// How a `format!` argument relates to the map's signal sources.
#[derive(Clone, Copy, Debug, PartialEq, Eq, Structural)]
pub enum ArgClass {
    /// A bare closure-param binding: the place of its signal source.
    Param(usize),
    /// A bare in-scope signal (`total`, `total.get()`), which `text!` captures
    /// as it is.
    Capture(usize),
    /// Touches a closure param without being a bare binding: `u.name`. The fix
    /// aliases `<receiver>.map(|<pat>| <expr>)`, which stays a signal.
    Projected,
    /// A signal that isn't a bare ident: `sigs[0]`, `x.computed()`. The fix
    /// aliases it under a name.
    ForeignSignal,
    /// Not a signal at all: `text!` can't subscribe to it. The fix binds it as
    /// `constant(<expr>)`.
    ForeignValue,
}

/// What an argument reads: the signal that a snapshot is taken of, or itself.
pub open spec fn read_of(hir: Hir, n: usize) -> Option<usize> {
    if hir.node(n).snapshot {
        match hir.node(n).get_receiver {
            Some(receiver) => Some(hir.unwrapped(receiver)),
            None => None,
        }
    } else {
        Some(n)
    }
}

/// The expression is a bare name for a signal that is no closure param.
pub open spec fn captures(hir: Hir, n: usize, all: Seq<usize>) -> bool {
    &&& signal_map::param_read(hir, n, all) is None
    &&& signal_map::bare_name(hir, n) is Some
    &&& hir.expr_ty(n).known_signal()
}

/// How the `format!` argument `arg` relates to the map's signal sources.
pub open spec fn arg_class(hir: Hir, params: ParamsView, arg: usize) -> ArgClass {
    let n = hir.unwrapped(arg);
    match signal_map::param_read(hir, n, params.all) {
        Some(id) => match params.source_of(id) {
            Some(i) => ArgClass::Param(i as usize),
            None => ArgClass::Projected,
        },
        None => match read_of(hir, n) {
            Some(read) if captures(hir, read, params.all) => ArgClass::Capture(read),
            _ => if signal_map::mentions(hir, n, params.all) {
                ArgClass::Projected
            } else if hir.expr_ty(n).known_signal() {
                ArgClass::ForeignSignal
            } else {
                ArgClass::ForeignValue
            },
        },
    }
}

/// Classifies one `format!` argument expression.
pub fn classify_arg(hir: &Hir, params: &Params, arg: usize) -> (r: ArgClass)
    requires
        hir.wf(),
        hir.has(arg),
    ensures
        r == arg_class(*hir, params@, arg),
        r matches ArgClass::Param(i) ==> i < params.slots.len() && params.whole,
        r matches ArgClass::Capture(n) ==> hir.has(n) && signal_map::bare_name(*hir, n) is Some,
{
    let n: usize = hir.strip_wraps(arg);
    proof {
        assert(hir.node_wf(n));
    }
    if let Some(id) = signal_map::param_hir_id(hir, n, &params.all) {
        return match params.source_of(id) {
            Some(i) => ArgClass::Param(i),
            None => ArgClass::Projected,
        };
    }
    // `x.get()` reads a signal: a `text!` placeholder names the signal itself.
    // Anything else is examined as written.
    let read: Option<usize> = if hir.nodes[n].snapshot {
        match hir.nodes[n].get_receiver {
            Some(receiver) => Some(hir.strip_wraps(receiver)),
            None => None,
        }
    } else {
        Some(n)
    };
    if let Some(read) = read {
        if signal_map::param_hir_id(hir, read, &params.all).is_none()
            && signal_map::bare_path_ident(hir, read).is_some() && hir.type_of(
            read,
        ).is_known_signal() {
            return ArgClass::Capture(read);
        }
    }
    if signal_map::touches_param(hir, n, &params.all) {
        ArgClass::Projected
    } else if hir.type_of(n).is_known_signal() {
        ArgClass::ForeignSignal
    } else {
        ArgClass::ForeignValue
    }
}

/// The source of a node.
pub open spec fn source(hir: Hir, n: usize) -> Option<Seq<char>> {
    text::text_opt(hir.node(n).snippet)
}

/// What an argument that a `text!` slot can't name is bound to.
pub open spec fn alias_value(
    hir: Hir,
    receiver: usize,
    params: ParamsView,
    arg: usize,
    name: Seq<char>,
    class: ArgClass,
) -> Seq<char> {
    match class {
        ArgClass::Projected => match (source(hir, receiver), params.source, source(hir, arg)) {
            (Some(signal), Some(pat), Some(value)) => signal + ".map(|"@ + pat + "| "@ + value
                + ")"@,
            _ => name,
        },
        ArgClass::ForeignValue => match source(hir, arg) {
            Some(value) => "constant("@ + value + ")"@,
            None => name,
        },
        _ => match source(hir, arg) {
            Some(value) => value,
            None => name,
        },
    }
}

/// The help for an argument that a `text!` slot can't name.
pub open spec fn alias_hint(name: Seq<char>, alias: Seq<char>) -> Seq<char> {
    "`text!` placeholders take identifiers bound to signals — bind the value under a name: `text!(\"{"@
        + name + "}\", "@ + name + " = "@ + alias + ")`"@
}

/// `help` for an argument a `text!` slot can't name directly: the user writes
/// the alias binding by hand. `name` is the chosen slot name.
///
/// `receiver.map(|pat| value)` keeps a projection a signal; a plain value is
/// bound through `constant(..)`, since slots must be signals; a non-bare signal
/// aliases as written.
pub fn alias_help(
    hir: &Hir,
    receiver: usize,
    params: &Params,
    arg: usize,
    name: &str,
    class: ArgClass,
) -> (r: String)
    requires
        hir.has(receiver),
        hir.has(arg),
    ensures
        r@ == alias_hint(name@, alias_value(*hir, receiver, params@, arg, name@, class)),
{
    let mut alias: String = String::new();
    match class {
        ArgClass::Projected => match (
            &hir.nodes[receiver].snippet,
            &params.source,
            &hir.nodes[arg].snippet,
        ) {
            (Some(signal), Some(pat), Some(value)) => {
                alias = text::cat5(signal.as_str(), ".map(|", pat.as_str(), "| ", value.as_str());
                alias.append(")");
            },
            _ => {
                alias = name.to_owned();
            },
        },
        ArgClass::ForeignValue => match &hir.nodes[arg].snippet {
            Some(value) => {
                alias = text::cat3("constant(", value.as_str(), ")");
            },
            None => {
                alias = name.to_owned();
            },
        },
        _ => match &hir.nodes[arg].snippet {
            Some(value) => {
                alias = value.clone();
            },
            None => {
                alias = name.to_owned();
            },
        },
    }
    let mut out: String = text::cat5(
        "`text!` placeholders take identifiers bound to signals — bind the value under a name: `text!(\"{",
        name,
        "}\", ",
        name,
        " = ",
    );
    out.append(alias.as_str());
    out.append(")`");
    out
}

/// Resolves `text!` slot names for the sources: bare identifiers capture by
/// name; anything else keeps the parameter's name and gains a
/// `name = <source>` binding.
#[derive(Debug)]
pub struct Namer {
    /// Resolved slot per source, filled on first use.
    pub slots: Vec<Option<String>>,
    pub bindings: Vec<String>,
    pub all_bare: bool,
}

/// The slot names resolved so far.
#[verifier::ext_equal]
pub ghost struct NamerView {
    pub slots: Seq<Option<Seq<char>>>,
    pub bindings: Seq<Seq<char>>,
    pub all_bare: bool,
}

pub open spec fn slot_texts(slots: Seq<Option<String>>) -> Seq<Option<Seq<char>>> {
    slots.map_values(|slot: Option<String>| text::text_opt(slot))
}

impl View for Namer {
    type V = NamerView;

    open spec fn view(&self) -> NamerView {
        NamerView {
            slots: slot_texts(self.slots@),
            bindings: text::texts(self.bindings@),
            all_bare: self.all_bare,
        }
    }
}

/// A namer that has resolved nothing of `n` sources.
pub open spec fn fresh_namer(n: int) -> NamerView {
    NamerView {
        slots: Seq::new(n as nat, |i: int| None::<Seq<char>>),
        bindings: seq![],
        all_bare: true,
    }
}

/// The slot name for source `i`, and what is resolved then; nothing where the
/// source's text cannot be recovered for the alias binding.
pub open spec fn name_source(
    hir: Hir,
    sources: Seq<usize>,
    params: ParamsView,
    namer: NamerView,
    i: int,
) -> Option<(NamerView, Seq<char>)> {
    match (namer.slots[i], signal_map::bare_name(hir, sources[i]), source(hir, sources[i])) {
        (Some(name), _, _) => Some((namer, name)),
        (None, Some(name), _) => Some(
            (NamerView { slots: namer.slots.update(i, Some(name)), ..namer }, name),
        ),
        (None, None, Some(value)) => {
            let name = match params.name_of(i) {
                Some(name) => name,
                None => signal_map::numbered(i),
            };
            Some(
                (
                    NamerView {
                        slots: namer.slots.update(i, Some(name)),
                        bindings: namer.bindings.push(name + " = "@ + value),
                        all_bare: false,
                    },
                    name,
                ),
            )
        },
        (None, None, None) => None,
    }
}

impl Namer {
    /// A namer that has resolved nothing of `count` sources.
    pub fn new(count: usize) -> (r: Namer)
        ensures
            r@ == fresh_namer(count as int),
    {
        let mut slots: Vec<Option<String>> = Vec::new();
        let mut i: usize = 0;
        while i < count
            invariant
                i <= count,
                slots.len() == i,
                forall|k: int| 0 <= k < i ==> slots@[k] is None,
            decreases count - i,
        {
            slots.push(None);
            i = i + 1;
        }
        let r: Namer = Namer { slots, bindings: Vec::new(), all_bare: true };
        proof {
            assert(r@.slots =~= fresh_namer(count as int).slots);
            assert(r@.bindings =~= seq![]);
        }
        r
    }

    /// The `text!` slot name for source `i`; nothing when the source's text
    /// can't be recovered for the alias binding.
    pub fn slot(&mut self, hir: &Hir, sources: &Vec<usize>, params: &Params, i: usize) -> (r: Option<
        String,
    >)
        requires
            i < sources.len(),
            old(self).slots.len() == sources.len(),
            hir::all_below(sources@, hir.nodes.len() as int),
        ensures
            match r {
                Some(name) => name_source(*hir, sources@, params@, old(self)@, i as int) == Some(
                    (final(self)@, name@),
                ),
                None => name_source(*hir, sources@, params@, old(self)@, i as int) is None,
            },
            final(self).slots.len() == old(self).slots.len(),
    {
        let ghost before = self.slots@;
        let ghost bound = self.bindings@;
        if let Some(name) = &self.slots[i] {
            return Some(name.clone());
        }
        let n: usize = sources[i];
        let name: String = match signal_map::bare_path_ident(hir, n) {
            Some(name) => name,
            None => {
                let name: String = match params.name_of(i) {
                    Some(name) => name,
                    None => signal_map::numbered_name(i),
                };
                match &hir.nodes[n].snippet {
                    Some(value) => {
                        let binding: String = text::cat3(name.as_str(), " = ", value.as_str());
                        self.bindings.push(binding);
                        self.all_bare = false;
                        proof {
                            assert(text::texts(self.bindings@) =~= text::texts(bound).push(
                                binding@,
                            ));
                        }
                    },
                    None => {
                        return None;
                    },
                }
                name
            },
        };
        self.slots[i] = Some(name.clone());
        proof {
            assert(slot_texts(self.slots@) =~= slot_texts(before).update(i as int, Some(name@)));
        }
        Some(name)
    }
}

/// What the fix can build.
#[derive(Debug)]
pub enum Render {
    /// A `text!` call: literal plus `name = expr` bindings.
    Text(Rendered),
    /// The shape can't rebuild `text!`: this is the `help` text.
    Help(String),
    /// The closure body never formats a signal: not this lint.
    Silent,
}

/// What the fix can build.
pub ghost enum RenderView {
    Text { template: Seq<char>, bindings: Seq<Seq<char>>, all_bare: bool },
    Help(Seq<char>),
    Silent,
}

impl View for Render {
    type V = RenderView;

    open spec fn view(&self) -> RenderView {
        match *self {
            Render::Text(rendered) => RenderView::Text {
                template: rendered.template@,
                bindings: text::texts(rendered.bindings@),
                all_bare: rendered.all_bare,
            },
            Render::Help(help) => RenderView::Help(help@),
            Render::Silent => RenderView::Silent,
        }
    }
}

/// How each argument of a `format!` call relates to the sources.
pub open spec fn arg_classes(hir: Hir, params: ParamsView, args: Seq<FormatArg>) -> Seq<ArgClass> {
    args.map_values(
        |arg: FormatArg|
            match arg.expr {
                Some(n) => arg_class(hir, params, n),
                None => ArgClass::ForeignValue,
            },
    )
}

/// A `text!` slot can name the argument.
pub open spec fn nameable(class: ArgClass) -> bool {
    class is Param || class is Capture
}

/// The argument reads a closure param.
pub open spec fn reads_param(class: ArgClass) -> bool {
    class is Param || class is Projected
}

/// The first of the arguments, from `i` on, that a slot cannot name.
pub open spec fn first_unnameable(classes: Seq<ArgClass>, i: int) -> Option<int>
    decreases classes.len() - i,
{
    if i < 0 || i >= classes.len() {
        None
    } else if !nameable(classes[i]) {
        Some(i)
    } else {
        first_unnameable(classes, i + 1)
    }
}

/// The slot names of the first `n` arguments, and what is resolved then.
pub open spec fn slot_names(
    hir: Hir,
    sources: Seq<usize>,
    params: ParamsView,
    classes: Seq<ArgClass>,
    n: int,
) -> Option<(NamerView, Seq<Seq<char>>)>
    decreases n,
{
    if n <= 0 {
        Some((fresh_namer(sources.len() as int), seq![]))
    } else {
        match (slot_names(hir, sources, params, classes, n - 1), classes[n - 1]) {
            (Some((namer, names)), ArgClass::Param(i)) => match name_source(
                hir,
                sources,
                params,
                namer,
                i as int,
            ) {
                Some((namer, name)) => Some((namer, names.push(name))),
                None => None,
            },
            (Some((namer, names)), ArgClass::Capture(n)) => match signal_map::bare_name(hir, n) {
                Some(name) => Some((namer, names.push(name))),
                None => None,
            },
            _ => None,
        }
    }
}

/// The name that an argument goes by in the help.
pub open spec fn arg_name(hir: Hir, arg: FormatArg, index: int) -> Seq<char> {
    match (arg.kind, arg.expr) {
        (ArgKind::Named(ident), _) => ident.name@,
        (ArgKind::Captured(ident), _) => ident.name@,
        (ArgKind::Normal, Some(n)) => signal_map::alias_text(hir, n, index),
        (ArgKind::Normal, None) => signal_map::numbered(index),
    }
}

/// The help for a width or precision that an argument gives.
pub open spec fn dynamic_hint() -> Seq<char> {
    "`text!` can't carry `{:*}`-style dynamic width/precision — bind the rendered value under a name instead"@
}

/// What a `format!` body rebuilds to.
pub open spec fn render_format(
    hir: Hir,
    receiver: usize,
    params: ParamsView,
    args: Seq<FormatArg>,
    pieces: Seq<FormatPiece>,
) -> RenderView {
    let sources = signal_map::signal_sources(hir, receiver);
    let classes = arg_classes(hir, params, args);
    if exists|i: int| 0 <= i < args.len() && (#[trigger] args[i]).expr is None {
        RenderView::Silent
    } else if !exists|i: int| 0 <= i < classes.len() && reads_param(#[trigger] classes[i]) {
        RenderView::Silent
    } else {
        match first_unnameable(classes, 0) {
            Some(i) => {
                let arg = args[i].expr->0;
                let name = arg_name(hir, args[i], i);
                RenderView::Help(
                    alias_hint(name, alias_value(hir, receiver, params, arg, name, classes[i])),
                )
            },
            None => match slot_names(hir, sources, params, classes, classes.len() as int) {
                Some((namer, names)) => match format_args::rebuilt(
                    pieces,
                    names,
                    pieces.len() as int,
                ) {
                    format_args::Rebuilt::Text(template) => RenderView::Text {
                        template,
                        bindings: namer.bindings,
                        all_bare: namer.all_bare,
                    },
                    format_args::Rebuilt::Dynamic => RenderView::Help(dynamic_hint()),
                    format_args::Rebuilt::Lost => RenderView::Silent,
                },
                None => RenderView::Silent,
            },
        }
    }
}

/// The `text!` literal and bindings that the flagged chain should have been.
pub open spec fn rendering(
    hir: Hir,
    receiver: usize,
    params: ParamsView,
    mapped: Mapped,
) -> RenderView {
    let sources = signal_map::signal_sources(hir, receiver);
    match mapped {
        Mapped::Silent => RenderView::Silent,
        Mapped::Projected(arg) => {
            let name = signal_map::alias_text(hir, arg, 0);
            RenderView::Help(
                alias_hint(
                    name,
                    alias_value(hir, receiver, params, arg, name, ArgClass::Projected),
                ),
            )
        },
        Mapped::Direct(n) => match signal_map::param_read(hir, n, params.all) {
            Some(id) => match params.source_of(id) {
                Some(i) => match name_source(
                    hir,
                    sources,
                    params,
                    fresh_namer(sources.len() as int),
                    i,
                ) {
                    Some((namer, name)) => RenderView::Text {
                        template: seq!['{'] + name + seq!['}'],
                        bindings: namer.bindings,
                        all_bare: namer.all_bare,
                    },
                    None => RenderView::Silent,
                },
                None => RenderView::Silent,
            },
            None => RenderView::Silent,
        },
        Mapped::Format(f) => render_format(
            hir,
            receiver,
            params,
            hir.formats@[f as int].args@,
            hir.formats@[f as int].template@,
        ),
    }
}

/// The positions of a parameter pattern are as many as the sources, where they
/// stand for them.
pub open spec fn params_fit(hir: Hir, receiver: usize, params: ParamsView) -> bool {
    params.whole ==> params.slots.len() == signal_map::signal_sources(hir, receiver).len()
}

fn braced(name: &str) -> (r: String)
    ensures
        r@ == seq!['{'] + name@ + seq!['}'],
{
    let mut out: String = String::new();
    out.push('{');
    assert(out@ =~= seq!['{']);
    out.append(name);
    let ghost inner = out@;
    out.push('}');
    assert(out@ =~= inner + seq!['}']);
    out
}

fn classify_args(hir: &Hir, params: &Params, args: &Vec<FormatArg>) -> (r: Option<Vec<ArgClass>>)
    requires
        hir.wf(),
        forall|i: int|
            0 <= i < args@.len() ==> hir::opt_below(
                #[trigger] args@[i].expr,
                hir.nodes@.len() as int,
            ),
    ensures
        match r {
            Some(classes) => classes@ == arg_classes(*hir, params@, args@) && forall|i: int|
                0 <= i < args@.len() ==> (#[trigger] args@[i]).expr is Some,
            None => exists|i: int| 0 <= i < args@.len() && (#[trigger] args@[i]).expr is None,
        },
        r matches Some(classes) ==> forall|i: int|
            #![trigger classes@[i]]
            0 <= i < classes@.len() ==> {
                &&& classes@[i] matches ArgClass::Param(k) ==> k < params.slots.len()
                    && params.whole
                &&& classes@[i] matches ArgClass::Capture(n) ==> hir.has(n)
                    && signal_map::bare_name(*hir, n) is Some
            },
{
    let mut classes: Vec<ArgClass> = Vec::new();
    let mut i: usize = 0;
    while i < args.len()
        invariant
            i <= args.len(),
            hir.wf(),
            forall|k: int|
                0 <= k < args@.len() ==> hir::opt_below(
                    #[trigger] args@[k].expr,
                    hir.nodes@.len() as int,
                ),
            classes.len() == i,
            forall|k: int|
                #![trigger args@[k]]
                #![trigger classes@[k]]
                0 <= k < i ==> {
                    &&& args@[k].expr is Some
                    &&& classes@[k] == arg_class(*hir, params@, args@[k].expr->0)
                    &&& classes@[k] matches ArgClass::Param(k) ==> k < params.slots.len()
                        && params.whole
                    &&& classes@[k] matches ArgClass::Capture(n) ==> hir.has(n)
                        && signal_map::bare_name(*hir, n) is Some
                },
        decreases args.len() - i,
    {
        assert(hir::opt_below(args@[i as int].expr, hir.nodes@.len() as int));
        match args[i].expr {
            Some(n) => {
                classes.push(classify_arg(hir, params, n));
            },
            None => {
                return None;
            },
        }
        i = i + 1;
    }
    proof {
        assert(classes@ =~= arg_classes(*hir, params@, args@));
    }
    Some(classes)
}

fn bad_index(classes: &Vec<ArgClass>) -> (r: Option<usize>)
    ensures
        match r {
            Some(i) => first_unnameable(classes@, 0) == Some(i as int) && i < classes.len(),
            None => first_unnameable(classes@, 0) is None,
        },
{
    let mut i: usize = 0;
    while i < classes.len()
        invariant
            i <= classes.len(),
            first_unnameable(classes@, 0) == first_unnameable(classes@, i as int),
        decreases classes.len() - i,
    {
        match classes[i] {
            ArgClass::Param(_) | ArgClass::Capture(_) => {},
            _ => {
                return Some(i);
            },
        }
        i = i + 1;
    }
    None
}

fn any_param(classes: &Vec<ArgClass>) -> (r: bool)
    ensures
        r == (exists|i: int| 0 <= i < classes@.len() && reads_param(#[trigger] classes@[i])),
{
    let mut i: usize = 0;
    while i < classes.len()
        invariant
            i <= classes.len(),
            forall|k: int| 0 <= k < i ==> !reads_param(#[trigger] classes@[k]),
        decreases classes.len() - i,
    {
        match classes[i] {
            ArgClass::Param(_) | ArgClass::Projected => {
                assert(reads_param(classes@[i as int]));
                return true;
            },
            _ => {},
        }
        i = i + 1;
    }
    false
}

proof fn lemma_slot_names_fail(
    hir: Hir,
    sources: Seq<usize>,
    params: ParamsView,
    classes: Seq<ArgClass>,
    n: int,
    m: int,
)
    requires
        n <= m,
        slot_names(hir, sources, params, classes, n) is None,
    ensures
        slot_names(hir, sources, params, classes, m) is None,
    decreases m,
{
    if n < m && m > 0 {
        lemma_slot_names_fail(hir, sources, params, classes, n, m - 1);
    }
}

fn name_args(
    hir: &Hir,
    sources: &Vec<usize>,
    params: &Params,
    classes: &Vec<ArgClass>,
) -> (r: Option<(Namer, Vec<String>)>)
    requires
        hir::all_below(sources@, hir.nodes.len() as int),
        forall|i: int|
            #![trigger classes@[i]]
            0 <= i < classes@.len() ==> {
                &&& classes@[i] matches ArgClass::Param(k) ==> k < sources.len()
                &&& classes@[i] matches ArgClass::Capture(n) ==> hir.has(n)
            },
    ensures
        match r {
            Some((namer, names)) => slot_names(
                *hir,
                sources@,
                params@,
                classes@,
                classes@.len() as int,
            ) == Some((namer@, text::texts(names@))),
            None => slot_names(*hir, sources@, params@, classes@, classes@.len() as int) is None,
        },
{
    let mut namer: Namer = Namer::new(sources.len());
    let mut names: Vec<String> = Vec::new();
    let mut i: usize = 0;
    let ghost total = classes@.len() as int;
    proof {
        assert(text::texts(names@) =~= seq![]);
        assert(namer@.slots.len() == sources.len());
    }
    while i < classes.len()
        invariant
            i <= classes.len(),
            total == classes@.len(),
            hir::all_below(sources@, hir.nodes.len() as int),
            forall|i: int|
                #![trigger classes@[i]]
                0 <= i < classes@.len() ==> {
                    &&& classes@[i] matches ArgClass::Param(k) ==> k < sources.len()
                    &&& classes@[i] matches ArgClass::Capture(n) ==> hir.has(n)
                },
            namer.slots.len() == sources.len(),
            slot_names(*hir, sources@, params@, classes@, i as int) == Some(
                (namer@, text::texts(names@)),
            ),
        decreases classes.len() - i,
    {
        let ghost before = names@;
        let name: Option<String> = match classes[i] {
            ArgClass::Param(k) => namer.slot(hir, sources, params, k),
            ArgClass::Capture(n) => signal_map::bare_path_ident(hir, n),
            _ => None,
        };
        match name {
            Some(name) => {
                names.push(name);
                proof {
                    assert(text::texts(names@) =~= text::texts(before).push(name@));
                }
            },
            None => {
                proof {
                    lemma_slot_names_fail(*hir, sources@, params@, classes@, i + 1, total);
                }
                return None;
            },
        }
        i = i + 1;
    }
    Some((namer, names))
}

fn written_arg_name(hir: &Hir, arg: &FormatArg, index: usize) -> (r: String)
    requires
        hir::opt_below(arg.expr, hir.nodes@.len() as int),
    ensures
        r@ == arg_name(*hir, *arg, index as int),
{
    match &arg.kind {
        ArgKind::Named(ident) => ident.name.clone(),
        ArgKind::Captured(ident) => ident.name.clone(),
        ArgKind::Normal => match arg.expr {
            Some(n) => signal_map::alias_name(hir, n, index),
            None => signal_map::numbered_name(index),
        },
    }
}

fn render_template(
    hir: &Hir,
    receiver: usize,
    params: &Params,
    args: &Vec<FormatArg>,
    pieces: &Vec<FormatPiece>,
) -> (r: Render)
    requires
        hir.wf(),
        hir.has(receiver),
        params_fit(*hir, receiver, params@),
        forall|i: int|
            0 <= i < args@.len() ==> hir::opt_below(
                #[trigger] args@[i].expr,
                hir.nodes@.len() as int,
            ),
    ensures
        r@ == render_format(*hir, receiver, params@, args@, pieces@),
{
    let classes: Vec<ArgClass> = match classify_args(hir, params, args) {
        Some(classes) => classes,
        None => {
            return Render::Silent;
        },
    };
    if !any_param(&classes) {
        return Render::Silent;
    }
    if let Some(i) = bad_index(&classes) {
        proof {
            assert(hir::opt_below(args@[i as int].expr, hir.nodes@.len() as int));
        }
        let name: String = written_arg_name(hir, &args[i], i);
        return match args[i].expr {
            Some(arg) => Render::Help(
                alias_help(hir, receiver, params, arg, name.as_str(), classes[i]),
            ),
            None => Render::Silent,
        };
    }
    let sources: Vec<usize> = signal_map::sources(hir, receiver);
    proof {
        assert(params@.slots.len() == params.slots.len());
    }
    match name_args(hir, &sources, params, &classes) {
        Some((namer, names)) => match format_args::rebuild(pieces, &names) {
            Ok(template) => Render::Text(
                Rendered { template, bindings: namer.bindings, all_bare: namer.all_bare },
            ),
            Err(format_args::RebuildError::Dynamic) => Render::Help(
                "`text!` can't carry `{:*}`-style dynamic width/precision — bind the rendered value under a name instead".to_owned(),
            ),
            Err(format_args::RebuildError::Lost) => Render::Silent,
        },
        None => Render::Silent,
    }
}

/// Rebuilds the `text!` literal (and bindings) the flagged chain should have
/// been.
///
/// Every argument is classified first: a format that never touches the signal
/// is not this lint; one that touches it through a non-bare shape downgrades to
/// help. Where every argument is a bare source param or a captured name, the
/// slot names are resolved and the literal emitted.
pub fn render(hir: &Hir, receiver: usize, params: &Params, mapped: Mapped) -> (r: Render)
    requires
        hir.wf(),
        hir.has(receiver),
        params_fit(*hir, receiver, params@),
        mapped_in(*hir, mapped),
    ensures
        r@ == rendering(*hir, receiver, params@, mapped),
{
    match mapped {
        Mapped::Silent => Render::Silent,
        Mapped::Projected(arg) => {
            let name: String = signal_map::alias_name(hir, arg, 0);
            Render::Help(
                alias_help(hir, receiver, params, arg, name.as_str(), ArgClass::Projected),
            )
        },
        Mapped::Direct(n) => {
            let id: usize = match signal_map::param_hir_id(hir, n, &params.all) {
                Some(id) => id,
                None => {
                    return Render::Silent;
                },
            };
            let i: usize = match params.source_of(id) {
                Some(i) => i,
                None => {
                    return Render::Silent;
                },
            };
            let sources: Vec<usize> = signal_map::sources(hir, receiver);
            let mut namer: Namer = Namer::new(sources.len());
            proof {
                assert(params@.slots.len() == params.slots.len());
                assert(namer@.slots.len() == sources.len());
            }
            match namer.slot(hir, &sources, params, i) {
                Some(name) => Render::Text(
                    Rendered {
                        template: braced(name.as_str()),
                        bindings: namer.bindings,
                        all_bare: namer.all_bare,
                    },
                ),
                None => Render::Silent,
            }
        },
        Mapped::Format(f) => render_template(
            hir,
            receiver,
            params,
            &hir.formats[f].args,
            &hir.formats[f].template,
        ),
    }
}

/// The first `n` pieces of a `text!` literal with the template put in place of
/// the slot; nothing where the slot carries options of its own.
pub open spec fn spliced(
    pieces: Seq<PieceView>,
    slot: Seq<char>,
    template: Seq<char>,
    n: int,
) -> Option<Seq<char>>
    decreases n,
{
    if n <= 0 {
        Some(seq![])
    } else {
        match (spliced(pieces, slot, template, n - 1), pieces[n - 1]) {
            (None, _) => None,
            (Some(before), PieceView::Literal(text)) => Some(before + format_args::escaped(text)),
            (Some(before), PieceView::Placeholder { name, spec }) => if name != slot {
                Some(before + seq!['{'] + name + spec + seq!['}'])
            } else if spec.len() == 0 {
                Some(before + template)
            } else {
                None
            },
        }
    }
}

/// The `text!` call that takes the place of `parsed`, whose only binding is the
/// slot.
pub open spec fn merged(
    parsed: TextCallView,
    slot: Option<Seq<char>>,
    template: Seq<char>,
    bindings: Seq<Seq<char>>,
) -> Option<Seq<char>> {
    if parsed.bindings.len() == 1 && slot == Some(parsed.bindings[0].name) {
        let pieces = template::split_template(parsed.literal->0, seq![]);
        match spliced(pieces, parsed.bindings[0].name, template, pieces.len() as int) {
            Some(literal) => Some(
                template::macro_text(
                    "text!("@,
                    literal,
                    match parsed.context {
                        Some(context) => " "@ + context,
                        None => seq![],
                    },
                    bindings,
                ),
            ),
            None => None,
        }
    } else {
        None
    }
}

proof fn lemma_spliced_fails(
    pieces: Seq<PieceView>,
    slot: Seq<char>,
    template: Seq<char>,
    n: int,
    m: int,
)
    requires
        n <= m,
        spliced(pieces, slot, template, n) is None,
    ensures
        spliced(pieces, slot, template, m) is None,
    decreases m,
{
    if n < m && m > 0 {
        lemma_spliced_fails(pieces, slot, template, n, m - 1);
    }
}

fn splice(pieces: &Vec<Piece>, slot: &str, template: &str) -> (r: Option<String>)
    ensures
        text::text_opt(r) == spliced(
            template::piece_views(pieces@),
            slot@,
            template@,
            pieces@.len() as int,
        ),
{
    let mut out: String = String::new();
    let mut n: usize = 0;
    let ghost views = template::piece_views(pieces@);
    proof {
        assert(out@ =~= seq![]);
    }
    while n < pieces.len()
        invariant
            n <= pieces.len(),
            views == template::piece_views(pieces@),
            spliced(views, slot@, template@, n as int) == Some(out@),
        decreases pieces.len() - n,
    {
        proof {
            assert(views[n as int] == pieces@[n as int]@);
        }
        match &pieces[n] {
            Piece::Literal(text) => {
                format_args::escape_literal(text.as_str(), &mut out);
            },
            Piece::Placeholder { name, spec } => {
                if !text::str_eq(name.as_str(), slot) {
                    let ghost before = out@;
                    out.push('{');
                    assert(out@ =~= before + seq!['{']);
                    out.append(name.as_str());
                    out.append(spec.as_str());
                    let ghost inner = out@;
                    out.push('}');
                    assert(out@ =~= inner + seq!['}']);
                } else if spec.as_str().is_empty() {
                    out.append(template);
                } else {
                    proof {
                        lemma_spliced_fails(
                            views,
                            slot@,
                            template@,
                            n + 1,
                            pieces@.len() as int,
                        );
                    }
                    return None;
                }
            },
        }
        n = n + 1;
    }
    Some(out)
}

/// Merges a rebuild into a parsed `text!(..)`: `text!("{x}", x = <map>)` and
/// template `n = {v:?}` become `text!("n = {v:?}", v = <source>)`.
///
/// The map's binding must be the call's only `name = expr`; anything else
/// (other aliases) is left alone. Only a bare `{slot}` (no spec) can absorb the
/// rewrite.
pub fn merge_parsed(parsed: &TextCall, slot: &Option<String>, rendered: &Rendered) -> (r: Option<
    String,
>)
    ensures
        text::text_opt(r) == merged(
            parsed@,
            text::text_opt(*slot),
            rendered.template@,
            text::texts(rendered.bindings@),
        ),
{
    proof {
        assert(parsed@.bindings.len() == parsed.bindings@.len());
    }
    if parsed.bindings.len() != 1 {
        return None;
    }
    proof {
        assert(parsed@.bindings[0].name == parsed.bindings@[0].0@);
    }
    let name: &str = parsed.bindings[0].0.as_str();
    let same = match slot {
        Some(slot) => text::str_eq(slot.as_str(), name),
        None => false,
    };
    if !same {
        return None;
    }
    let pieces: Vec<Piece> = template::text_pieces(parsed.literal.as_str());
    proof {
        assert(template::piece_views(pieces@).len() == pieces@.len());
    }
    match splice(&pieces, name, rendered.template.as_str()) {
        Some(literal) => {
            let context: String = match &parsed.context {
                Some(context) => text::cat(" ", context.as_str()),
                None => String::new(),
            };
            proof {
                if parsed.context is None {
                    assert(context@ =~= seq![]);
                }
            }
            Some(
                template::write_macro(
                    "text!(",
                    literal.as_str(),
                    context.as_str(),
                    &rendered.bindings,
                ),
            )
        },
        None => None,
    }
}

/// The name that a `let` binds, where it can name a slot.
pub open spec fn slot_name(hir: Hir, local: usize) -> Option<Seq<char>> {
    match let_binding(hir, local) {
        Some((_, ident)) => ident.ordinary(),
        None => None,
    }
}

/// The name a `let` pattern binds (`let <ident> = ..`).
pub fn binding_name(hir: &Hir, local: usize) -> (r: Option<String>)
    requires
        hir.wf(),
        hir.has(local),
    ensures
        text::text_opt(r) == slot_name(*hir, local),
{
    proof {
        assert(hir.node_wf(local));
    }
    match &hir.nodes[local].kind {
        Kind::LetStmt { pat, .. } => match &hir.nodes[*pat].kind {
            Kind::Binding { name, .. } => signal_map::usable_ident(name),
            _ => None,
        },
        _ => None,
    }
}

/// The call that takes the place of the `text!(..)` that the capture `local`
/// belongs to.
pub open spec fn merged_at(
    hir: Hir,
    local: usize,
    template: Seq<char>,
    bindings: Seq<Seq<char>>,
) -> Option<Seq<char>> {
    match source(hir, local) {
        Some(src) => match macro_call::text_call(src, lexer::lexemes(src)) {
            Some(parsed) => merged(parsed, slot_name(hir, local), template, bindings),
            None => None,
        },
        None => None,
    }
}

/// Merges a rebuild into the existing `text!(..)` that the capture `local`
/// belongs to.
pub fn merge(hir: &Hir, local: usize, rendered: &Rendered) -> (r: Option<String>)
    requires
        hir.wf(),
        hir.has(local),
    ensures
        text::text_opt(r) == merged_at(
            *hir,
            local,
            rendered.template@,
            text::texts(rendered.bindings@),
        ),
{
    proof {
        assert(hir.node_wf(local));
    }
    match &hir.nodes[local].snippet {
        Some(src) => match macro_call::parse_text_call(src.as_str()) {
            Some(parsed) => merge_parsed(&parsed, &binding_name(hir, local), rendered),
            None => None,
        },
        None => None,
    }
}

/// The text of a new `use`, between what stands before and after it.
pub open spec fn use_text(before: Seq<char>, path: Seq<char>, after: Seq<char>) -> Seq<char> {
    before + "use "@ + path + ";"@ + after
}

/// The parts of the fix at `span`: the replacement, and an import of `text!`
/// where the name is free; where it is taken, the replacement is qualified.
pub open spec fn fix_at(
    hir: Hir,
    module: Module,
    text_macro: Option<usize>,
    n: usize,
    span: Span,
    replacement: Seq<char>,
) -> Option<Seq<(Span, Seq<char>)>> {
    if text_macro is None {
        None
    } else {
        match imports::bare_meaning(
            hir,
            module,
            n,
            span.lo,
            "text"@,
            Namespace::Macro,
            text_macro,
        ) {
            Bare::Same => Some(seq![(span, replacement)]),
            Bare::Free => match imports::insertion(module, "waterui::text"@) {
                Some((point, before, after)) => Some(
                    seq![
                        (point, use_text(before, "waterui::text"@, after)),
                        (span, replacement),
                    ],
                ),
                None => None,
            },
            Bare::Conflict | Bare::Unknown => Some(
                seq![
                    (span, text::replaced_first(replacement, "text!"@, "waterui::text!"@)),
                ],
            ),
        }
    }
}

/// The parts of an optional fix.
pub open spec fn parts_opt(parts: Option<Vec<(Span, String)>>) -> Option<Seq<(Span, Seq<char>)>> {
    match parts {
        Some(parts) => Some(diagnostics::part_views(parts@)),
        None => None,
    }
}

/// Suggestion parts that go by what `text` means at the place: the replacement
/// plus a `use waterui::text;` when `text` isn't already the macro. Where `text`
/// names something else, the call is qualified instead of importing.
pub fn fix_parts(
    hir: &Hir,
    module: &Module,
    text_macro: Option<usize>,
    n: usize,
    span: Span,
    replacement: &str,
) -> (r: Option<Vec<(Span, String)>>)
    requires
        hir.wf(),
        hir.has(n),
    ensures
        parts_opt(r) == fix_at(*hir, *module, text_macro, n, span, replacement@),
{
    if text_macro.is_none() {
        return None;
    }
    let query: Query = Query {
        pos: span.lo,
        name: "text",
        ns: Namespace::Macro,
        target: text_macro,
    };
    let mut parts: Vec<(Span, String)> = Vec::new();
    match imports::bare_status(hir, module, n, &query) {
        Bare::Same => {
            parts.push((span, replacement.to_owned()));
        },
        Bare::Free => match imports::use_insertion(module, "waterui::text") {
            Some((point, before, after)) => {
                let line: String = text::cat5(
                    before.as_str(),
                    "use ",
                    "waterui::text",
                    ";",
                    after.as_str(),
                );
                parts.push((point, line));
                parts.push((span, replacement.to_owned()));
            },
            None => {
                return None;
            },
        },
        Bare::Conflict | Bare::Unknown => {
            parts.push((span, text::replace_first(replacement, "text!", "waterui::text!")));
        },
    }
    proof {
        let want = fix_at(*hir, *module, text_macro, n, span, replacement@);
        assert(diagnostics::part_views(parts@) =~= want->0);
    }
    Some(parts)
}

/// What the finding says.
pub open spec fn message() -> Seq<char> {
    "`text!` already formats a signal — `.map(|v| format!(..))` throws away format specs and the translatable sentence"@
}

/// A fix that names only bare identifiers can be applied unseen.
pub open spec fn bare_applicability(all_bare: bool) -> Applicability {
    if all_bare {
        Applicability::MachineApplicable
    } else {
        Applicability::MaybeIncorrect
    }
}

/// The remark that offers `code` at `span`, as a fix where one can be written.
pub open spec fn offer(
    hir: Hir,
    module: Module,
    text_macro: Option<usize>,
    n: usize,
    span: Span,
    code: Seq<char>,
    all_bare: bool,
) -> RemarkView {
    match fix_at(hir, module, text_macro, n, span, code) {
        Some(parts) => RemarkView::Multipart {
            label: "write it as `text!`"@,
            parts,
            applicability: bare_applicability(all_bare),
        },
        None => RemarkView::Help("write it as `"@ + code + "`"@),
    }
}

/// The note on a `let` that only carries the text.
pub open spec fn carries_note(name: Seq<char>) -> RemarkView {
    RemarkView::Note("`"@ + name + "` only carries a `format!` into a text position"@)
}

/// What a flagged map at a position is told.
pub open spec fn remarks_for(
    hir: Hir,
    module: Module,
    text_macro: Option<usize>,
    n: usize,
    render: RenderView,
    position: Position,
    finding: DiagnosticView,
) -> DiagnosticView {
    match (position, render) {
        (Position::Silent, _) => finding,
        (_, RenderView::Silent) => finding,
        (Position::TextCall(at), RenderView::Text { template, bindings, all_bare }) => finding.with(
            offer(
                hir,
                module,
                text_macro,
                n,
                hir.node(at).span,
                template::macro_text("text!("@, template, seq![], bindings),
                all_bare,
            ),
        ),
        (Position::BoundArg(at), RenderView::Text { template, bindings, all_bare }) => finding.with(
            offer(
                hir,
                module,
                text_macro,
                n,
                hir.node(at).span,
                template::macro_text("text!("@, template, seq![], bindings),
                all_bare,
            ),
        ),
        (Position::TextMacro(local), RenderView::Text { template, bindings, all_bare }) => match merged_at(
            hir,
            local,
            template,
            bindings,
        ) {
            Some(code) => finding.with(
                offer(hir, module, text_macro, n, hir.node(local).span, code, all_bare),
            ),
            None => finding.with(
                RemarkView::Help(
                    "write the `text!` as `"@ + template::macro_text(
                        "text!("@,
                        template,
                        seq![],
                        bindings,
                    ) + "`"@,
                ),
            ),
        },
        (
            Position::LetBound { local, text_use },
            RenderView::Text { template, bindings, all_bare: _ },
        ) => {
            let plain = template::macro_text("text!("@, template, seq![], bindings);
            let target = match text_use {
                TextUse::Macro(capture) => match merged_at(hir, capture, template, bindings) {
                    Some(code) => code,
                    None => plain,
                },
                TextUse::Arg => plain,
            };
            let name = let_name(hir, local);
            finding.with(
                RemarkView::Help(
                    "write the text position as `"@ + target + "` — `"@ + name
                        + "` and the `let` both go away"@,
                ),
            ).with(carries_note(name))
        },
        (Position::LetBound { local, text_use: _ }, RenderView::Help(help)) => finding.with(
            RemarkView::Help(help),
        ).with(carries_note(let_name(hir, local))),
        (_, RenderView::Help(help)) => finding.with(RemarkView::Help(help)),
    }
}

/// The name that a `let` binds.
pub open spec fn let_name(hir: Hir, local: usize) -> Seq<char> {
    match let_binding(hir, local) {
        Some((_, ident)) => ident.name@,
        None => seq![],
    }
}

fn read_let_name(hir: &Hir, local: usize) -> (r: String)
    requires
        hir.wf(),
        hir.has(local),
    ensures
        r@ == let_name(*hir, local),
{
    proof {
        assert(hir.node_wf(local));
    }
    let none: String = String::new();
    proof {
        assert(none@ =~= seq![]);
    }
    match &hir.nodes[local].kind {
        Kind::LetStmt { pat, .. } => match &hir.nodes[*pat].kind {
            Kind::Binding { name, .. } => name.name.clone(),
            _ => none,
        },
        _ => none,
    }
}

fn add_offer(
    hir: &Hir,
    module: &Module,
    text_macro: Option<usize>,
    n: usize,
    span: Span,
    code: &str,
    all_bare: bool,
    finding: &mut Diagnostic,
)
    requires
        hir.wf(),
        hir.has(n),
    ensures
        final(finding)@ == old(finding)@.with(
            offer(*hir, *module, text_macro, n, span, code@, all_bare),
        ),
{
    match fix_parts(hir, module, text_macro, n, span, code) {
        Some(parts) => {
            let applicability: Applicability = if all_bare {
                Applicability::MachineApplicable
            } else {
                Applicability::MaybeIncorrect
            };
            finding.multipart_suggestion("write it as `text!`", parts, applicability);
        },
        None => {
            finding.help(text::cat3("write it as `", code, "`"));
        },
    }
}

fn add_note(name: &str, finding: &mut Diagnostic)
    ensures
        final(finding)@ == old(finding)@.with(carries_note(name@)),
{
    finding.note(text::cat3("`", name, "` only carries a `format!` into a text position"));
}

/// Reports a flagged map: `expr` is the `map` call, `render` what it rebuilds
/// to, and `position` where its result flows. Nothing is said of a map that
/// rebuilds to nothing.
pub fn report(
    hir: &Hir,
    module: &Module,
    text_macro: Option<usize>,
    n: usize,
    render: Render,
    position: Position,
) -> (r: Option<Diagnostic>)
    requires
        hir.wf(),
        hir.has(n),
        position_in(*hir, position),
    ensures
        diagnostics::found(r) == (if render@ is Silent {
            None
        } else {
            Some(
                remarks_for(
                    *hir,
                    *module,
                    text_macro,
                    n,
                    render@,
                    position,
                    DiagnosticView::bare(Lint::ManualTextMap, hir.node(n).span, message()),
                ),
            )
        }),
{
    let mut finding: Diagnostic = Diagnostic::bare(
        Lint::ManualTextMap,
        hir.nodes[n].span,
        "`text!` already formats a signal — `.map(|v| format!(..))` throws away format specs and the translatable sentence",
    );
    match render {
        Render::Silent => {
            return None;
        },
        Render::Help(help) => match position {
            Position::Silent => {},
            Position::LetBound { local, .. } => {
                finding.help(help);
                add_note(read_let_name(hir, local).as_str(), &mut finding);
            },
            _ => {
                finding.help(help);
            },
        },
        Render::Text(rendered) => match position {
            Position::Silent => {},
            Position::TextCall(at) => {
                let code: String = rendered.text_call();
                let span: Span = hir.nodes[at].span;
                add_offer(
                    hir,
                    module,
                    text_macro,
                    n,
                    span,
                    code.as_str(),
                    rendered.all_bare,
                    &mut finding,
                );
            },
            Position::BoundArg(at) => {
                let code: String = rendered.text_call();
                let span: Span = hir.nodes[at].span;
                add_offer(
                    hir,
                    module,
                    text_macro,
                    n,
                    span,
                    code.as_str(),
                    rendered.all_bare,
                    &mut finding,
                );
            },
            Position::TextMacro(local) => match merge(hir, local, &rendered) {
                Some(code) => {
                    let span: Span = hir.nodes[local].span;
                    add_offer(
                        hir,
                        module,
                        text_macro,
                        n,
                        span,
                        code.as_str(),
                        rendered.all_bare,
                        &mut finding,
                    );
                },
                None => {
                    let code: String = rendered.text_call();
                    finding.help(text::cat3("write the `text!` as `", code.as_str(), "`"));
                },
            },
            Position::LetBound { local, text_use } => {
                let target: String = match text_use {
                    TextUse::Macro(capture) => match merge(hir, capture, &rendered) {
                        Some(code) => code,
                        None => rendered.text_call(),
                    },
                    TextUse::Arg => rendered.text_call(),
                };
                let name: String = read_let_name(hir, local);
                finding.help(
                    text::cat5(
                        "write the text position as `",
                        target.as_str(),
                        "` — `",
                        name.as_str(),
                        "` and the `let` both go away",
                    ),
                );
                add_note(name.as_str(), &mut finding);
            },
        },
    }
    Some(finding)
}

/// What the lint finds at the expression `n`.
pub open spec fn finding_at(
    hir: Hir,
    module: Module,
    text_macro: Option<usize>,
    n: usize,
) -> Option<DiagnosticView> {
    match signal_map::map_parts(hir, n) {
        Some((receiver, func)) => match signal_map::one_param_closure(hir, func) {
            Some((pat, body)) => {
                let count = signal_map::signal_sources(hir, receiver).len() as int;
                let params = signal_map::params_of(hir, pat, count);
                let mapped = body_class(hir, body, params);
                let position = place_of(hir, n, text_macro);
                let render = rendering(hir, receiver, params, mapped);
                if hir.node(n).span.expanded() || mapped is Silent || position is Silent
                    || render is Silent {
                    None
                } else {
                    Some(
                        remarks_for(
                            hir,
                            module,
                            text_macro,
                            n,
                            render,
                            position,
                            DiagnosticView::bare(
                                Lint::ManualTextMap,
                                hir.node(n).span,
                                message(),
                            ),
                        ),
                    )
                }
            },
            None => None,
        },
        None => None,
    }
}

/// Checks one expression, in the module it lies in. `text_macro` is the `text!`
/// macro, where the crate can name it.
pub fn check_expr(hir: &Hir, module: &Module, text_macro: Option<usize>, n: usize) -> (r: Option<
    Diagnostic,
>)
    requires
        hir.wf(),
        hir.has(n),
    ensures
        diagnostics::found(r) == finding_at(*hir, *module, text_macro, n),
{
    if hir.nodes[n].span.from_expansion() {
        return None;
    }
    let (receiver, func) = match signal_map::map_call(hir, n) {
        Some(parts) => parts,
        None => {
            return None;
        },
    };
    let (pat, body) = match signal_map::closure_parts(hir, func) {
        Some(parts) => parts,
        None => {
            return None;
        },
    };
    let count: usize = signal_map::sources(hir, receiver).len();
    let params: Params = Params::new(hir, pat, count);
    let mapped: Mapped = classify_body(hir, body, &params);
    if let Mapped::Silent = mapped {
        return None;
    }
    let position: Position = position(hir, n, text_macro);
    if let Position::Silent = position {
        return None;
    }
    let render: Render = render(hir, receiver, &params, mapped);
    report(hir, module, text_macro, n, render, position)
}

/// A map that gives its parameter's text as it is, by name or through
/// `.to_string()`, reads the parameter directly where the name stands for a whole
/// source, and is a projection of it else; a `format!` gives its template.
pub proof fn closure_bodies_are_told_apart(
    hir: Hir,
    body: usize,
    params: ParamsView,
    n: usize,
    receiver: usize,
    x: usize,
)
    requires
        mapped_value(hir, body) == n,
        params.all.contains(x),
    ensures
        !hir.is_call(n) && hir.local(hir.unwrapped(n)) == Some(x) && text_typed(
            hir,
            hir.node(hir.unwrapped(n)).ty,
        ) ==> body_class(hir, body, params) == (if params.source_of(x) is Some {
            Mapped::Direct(hir.unwrapped(n))
        } else {
            Mapped::Projected(hir.unwrapped(n))
        }),
        hir.is_call(n) && (hir.node(n).mac matches Some(mac) && mac.is_format) && hir.node(
            n,
        ).format is Some ==> body_class(hir, body, params) == Mapped::Format(
            hir.node(n).format->0,
        ),
        hir.is_call(n) && hir.node(n).mac is None && hir.calls_item(n, Known::ToString)
            && hir.first_operand(n) == Some(receiver) && hir.local(hir.unwrapped(receiver)) == Some(
            x,
        ) ==> body_class(hir, body, params) == (if params.source_of(x) is Some {
            Mapped::Direct(hir.unwrapped(receiver))
        } else {
            Mapped::Projected(hir.unwrapped(receiver))
        }),
{
}

/// The value of a map stands in a text position where `text(..)` takes it, in
/// place of the whole call, or where another call takes it as a text, in place of
/// that argument; an argument that takes anything else is no text position.
pub proof fn text_positions_are_told_apart(
    hir: Hir,
    n: usize,
    text_macro: Option<usize>,
    call: usize,
    arg: usize,
    i: int,
    callee: usize,
)
    requires
        flow_from(hir, n, n, text_macro) == (Flow::Arg { call, arg }),
        hir.node(call).callee == Some(callee),
        hir.operand_place(call, arg) == Some(i),
    ensures
        hir.bounded(call, i, seq![Known::IntoText, Known::IntoLabel]) && hir.is_def(
            callee,
            Known::TextFn,
        ) ==> place_of(hir, n, text_macro) == Position::TextCall(call),
        hir.bounded(call, i, seq![Known::IntoText, Known::IntoLabel]) && !hir.is_def(
            callee,
            Known::TextFn,
        ) ==> place_of(hir, n, text_macro) == Position::BoundArg(arg),
        !hir.bounded(call, i, seq![Known::IntoText, Known::IntoLabel]) ==> place_of(
            hir,
            n,
            text_macro,
        ) == Position::Silent,
{
    assert(text_bounds() =~= seq![Known::IntoText, Known::IntoLabel]);
}

/// A value flows on through what only hands it on, a block, a branch or an
/// adapter of the signal, and ends at the call that takes it or the `let` that
/// keeps it.
pub proof fn values_flow_to_their_use(
    hir: Hir,
    n: usize,
    p: usize,
    text_macro: Option<usize>,
)
    requires
        hir.up(n) == Some(p),
    ensures
        hir.kind(p) matches Kind::DropTemps { inner } ==> (inner == n ==> flow_from(
            hir,
            n,
            n,
            text_macro,
        ) == flow_from(hir, p, p, text_macro)),
        hir.kind(p) matches Kind::If { cond: _, then, els } ==> (then == n || els == Some(n)
            ==> flow_from(hir, n, n, text_macro) == flow_from(hir, p, p, text_macro)),
        hir.is_call(p) && (hir.operand_place(p, n) matches Some(i) && i > 0) ==> flow_from(
            hir,
            n,
            n,
            text_macro,
        ) == (Flow::Arg { call: p, arg: n }),
        hir.is_call(p) && hir.operand_place(p, n) == Some(0int) && hir.calls(
            p,
            seq![Known::ToOwned, Known::Clone],
        ) ==> flow_from(hir, n, n, text_macro) == flow_from(hir, p, p, text_macro),
        hir.kind(p) matches Kind::LetStmt { pat: _, ty: _, init, els: _ } ==> (init == Some(n)
            && !hir.is_call(n) ==> flow_from(hir, n, n, text_macro) == Flow::LetInit(p)),
        hir.kind(p) is Ret || hir.kind(p) is Field || hir.kind(p) is Semi ==> flow_from(
            hir,
            n,
            n,
            text_macro,
        ) == Flow::End,
{
}

/// What a slot cannot name is bound by hand to what it is: a projection to a map
/// of the whole receiver through the closure's own pattern, a value that is no
/// signal to a constant of it.
pub proof fn aliases_are_what_was_shown(
    hir: Hir,
    receiver: usize,
    params: ParamsView,
    arg: usize,
    name: Seq<char>,
    signal: Seq<char>,
    pat: Seq<char>,
    value: Seq<char>,
)
    requires
        hir.source(receiver) == Some(signal),
        params.source == Some(pat),
        hir.source(arg) == Some(value),
    ensures
        alias_value(hir, receiver, params, arg, name, ArgClass::Projected) == signal + ".map(|"@
            + pat + "| "@ + value + ")"@,
        alias_value(hir, receiver, params, arg, name, ArgClass::ForeignValue) == "constant("@
            + value + ")"@,
        alias_value(hir, receiver, params, arg, name, ArgClass::ForeignSignal) == value,
{
}

/// An argument that is no bare read of a name of the pattern is told apart by what
/// it is: a bare name of another signal is captured, what mentions the pattern's
/// names is a projection, and of the rest signals and plain values are kept
/// apart.
pub proof fn other_arguments_are_told_apart(hir: Hir, params: ParamsView, arg: usize)
    requires
        !(hir.local(hir.unwrapped(arg)) matches Some(x) && params.all.contains(x)),
        !hir.node(hir.unwrapped(arg)).snapshot,
    ensures
        ({
            let n = hir.unwrapped(arg);
            let class = arg_class(hir, params, arg);
            &&& signal_map::bare_name(hir, n) is Some && hir.expr_ty(n).known_signal() ==> class
                == ArgClass::Capture(n)
            &&& signal_map::bare_name(hir, n) is None && signal_map::mentions(hir, n, params.all)
                ==> class == ArgClass::Projected
            &&& signal_map::bare_name(hir, n) is None && !signal_map::mentions(hir, n, params.all)
                ==> class == (if hir.expr_ty(n).known_signal() {
                ArgClass::ForeignSignal
            } else {
                ArgClass::ForeignValue
            })
        }),
{
}

} // verus!
