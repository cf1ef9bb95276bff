//! `binding_parameter_by_value`: a `Binding<T>` parameter taken by value instead
//! of `&Binding<T>`.

use crate::binding;
use crate::diagnostics;
use crate::diagnostics::{Applicability, Diagnostic, DiagnosticView, RemarkView};
use crate::hir;
use crate::hir::{Hir, Kind, Span, TyKind};
use crate::known::Known;
use crate::lint::Lint;
use crate::signature;
use crate::signature::{FnHome, Function};
use crate::text;
use vstd::prelude::*;

verus! {

/// The places below `n` of the inputs that are `Binding<T>` itself.
pub open spec fn binding_inputs(hir: Hir, inputs: Seq<usize>, n: int) -> Seq<usize>
    decreases n,
{
    if n <= 0 {
        seq![]
    } else if hir.ty_is(inputs[n - 1], Known::Binding) {
        binding_inputs(hir, inputs, n - 1).push((n - 1) as usize)
    } else {
        binding_inputs(hir, inputs, n - 1)
    }
}

/// The places of a function's `Binding<T>` parameters.
pub open spec fn binding_places(hir: Hir, f: Function) -> Seq<usize> {
    binding_inputs(hir, f.inputs@, f.inputs@.len() as int)
}

/// The places of the function's parameters typed `Binding<T>`: bare, so
/// `&Binding<T>` and wrappers like `Option`, `Vec` or `State` stay silent.
pub fn binding_params(hir: &Hir, f: &Function) -> (r: Vec<usize>)
    requires
        f.fits(*hir),
    ensures
        r@ == binding_places(*hir, *f),
        hir::all_below(r@, f.inputs@.len() as int),
{
    let mut out: Vec<usize> = Vec::new();
    let mut i: usize = 0;
    proof {
        assert(out@ =~= seq![]);
    }
    while i < f.inputs.len()
        invariant
            i <= f.inputs.len(),
            f.fits(*hir),
            out@ == binding_inputs(*hir, f.inputs@, i as int),
            hir::all_below(out@, f.inputs@.len() as int),
        decreases f.inputs.len() - i,
    {
        if hir.is_adt(f.inputs[i], Known::Binding) {
            out.push(i);
        }
        i = i + 1;
    }
    out
}

/// One `f(.., e, ..)` call-site rewrite at a `Binding` position.
#[derive(Clone, Copy, Debug, PartialEq, Eq, Structural)]
pub struct CallSite {
    /// The function that is called.
    pub callee: usize,
    /// The argument, which is replaced.
    pub arg: usize,
    /// What is borrowed instead: the receiver of a `.clone()` call, the argument
    /// itself otherwise, so that `f(b.clone())` becomes `f(&b)` and any other `e`
    /// becomes `f(&e)`.
    pub src: usize,
    /// It is an `f(b.clone())` site: the trigger for a private signature.
    pub cloned: bool,
}

/// What the argument `arg` of a call of `callee` becomes.
pub open spec fn site_of(hir: Hir, callee: usize, arg: usize) -> CallSite {
    if hir.calls_item(arg, Known::Clone) {
        match hir.first_operand(arg) {
            Some(receiver) => CallSite { callee, arg, src: receiver, cloned: true },
            None => CallSite { callee, arg, src: arg, cloned: false },
        }
    } else {
        CallSite { callee, arg, src: arg, cloned: false }
    }
}

fn call_site(hir: &Hir, callee: usize, arg: usize) -> (r: CallSite)
    requires
        hir.wf(),
        hir.has(arg),
    ensures
        r == site_of(*hir, callee, arg),
        hir.has(r.arg),
        hir.has(r.src),
{
    if hir.is_call_of(arg, Known::Clone) {
        if let Some(receiver) = hir.first_arg(arg) {
            return CallSite { callee, arg, src: receiver, cloned: true };
        }
    }
    CallSite { callee, arg, src: arg, cloned: false }
}

/// The sites of the first `n` of the places.
pub open spec fn sites_at_places(
    hir: Hir,
    callee: usize,
    args: Seq<usize>,
    places: Seq<usize>,
    n: int,
) -> Seq<CallSite>
    decreases n,
{
    if n <= 0 {
        seq![]
    } else {
        let rest = sites_at_places(hir, callee, args, places, n - 1);
        if places[n - 1] < args.len() {
            rest.push(site_of(hir, callee, args[places[n - 1] as int]))
        } else {
            rest
        }
    }
}

/// The sites that an expression adds.
pub open spec fn sites_of(hir: Hir, fns: Seq<Function>, n: usize) -> Seq<CallSite> {
    match signature::called(hir, fns, n) {
        Some(i) => {
            let places = binding_places(hir, fns[i]);
            sites_at_places(hir, fns[i].def, hir.operands(n), places, places.len() as int)
        },
        None => seq![],
    }
}

/// How deep the references of a type go.
pub open spec fn ref_depth(hir: Hir, t: usize) -> nat
    decreases t,
{
    match hir.ty(t).kind {
        TyKind::Ref { inner, mutable: _ } => if inner < t {
            1 + ref_depth(hir, inner)
        } else {
            0
        },
        _ => 0,
    }
}

/// What turns an expression into a `&Binding`.
pub open spec fn borrowing(hir: Hir, n: usize) -> Seq<char> {
    if hir.ty_is(hir.referent(hir.node(n).ty), Known::Binding) {
        "&"@ + binding::stars(ref_depth(hir, hir.node(n).ty))
    } else {
        "&*"@
    }
}

fn star_prefix(hir: &Hir, t: usize) -> (r: String)
    requires
        hir.wf(),
        t < hir.types.len(),
    ensures
        r@ == binding::stars(ref_depth(*hir, t)),
    decreases t,
{
    proof {
        assert(hir.types@[t as int].below(t as int));
    }
    match &hir.types[t].kind {
        TyKind::Ref { inner, .. } => {
            let mut out: String = star_prefix(hir, *inner);
            out.push('*');
            out
        },
        _ => {
            let out: String = String::new();
            proof {
                assert(out@ =~= seq![]);
            }
            out
        },
    }
}

/// The prefix turning an expression, a `Binding` call argument or `.clone()`
/// receiver, into a `&Binding`: `&` for a `Binding` value, `&*` for a `&Binding`
/// one (more `*`s the deeper the reference), `&*` for anything else that derefs
/// to `Binding` (`Box`, and the like).
pub fn borrow_prefix(hir: &Hir, n: usize) -> (r: String)
    requires
        hir.wf(),
        hir.has(n),
    ensures
        r@ == borrowing(*hir, n),
{
    proof {
        assert(hir.node_wf(n));
    }
    let t: usize = hir.nodes[n].ty;
    if hir.is_adt(hir.peel_refs(t), Known::Binding) {
        let stars: String = star_prefix(hir, t);
        text::cat("&", stars.as_str())
    } else {
        "&*".to_owned()
    }
}

/// What a position says of the handle at it.
#[derive(Clone, Copy, Debug, PartialEq, Eq, Structural)]
pub enum Position {
    /// It takes the handle, or it does not.
    Takes(bool),
    /// What the node around it does decides.
    Around,
}

/// What the parent `p` does with the node `n` below it.
pub open spec fn position_in(hir: Hir, p: usize, n: usize) -> Position {
    match hir.kind(p) {
        Kind::FieldInit { name: _, value } => Position::Takes(value == n),
        Kind::Arm { pat: _, guard: _, body } => if body == n {
            Position::Around
        } else {
            Position::Takes(false)
        },
        Kind::Block { stmts: _, tail } => if tail == Some(n) {
            Position::Around
        } else {
            Position::Takes(false)
        },
        Kind::DropTemps { inner } => if inner == n {
            Position::Around
        } else {
            Position::Takes(false)
        },
        Kind::BlockExpr { block } => if block == n {
            Position::Around
        } else {
            Position::Takes(false)
        },
        Kind::If { cond: _, then, els } => if then == n || els == Some(n) {
            Position::Around
        } else {
            Position::Takes(false)
        },
        Kind::Match { scrutinee: _, arms, source: _ } => if arms@.contains(n) {
            Position::Around
        } else {
            Position::Takes(false)
        },
        Kind::Ret { .. } => Position::Takes(true),
        Kind::Break { .. } => Position::Takes(true),
        Kind::Yield { .. } => Position::Takes(true),
        Kind::Become { .. } => Position::Takes(true),
        Kind::Closure { .. } => Position::Takes(true),
        Kind::Call { func: _, args } => Position::Takes(args@.contains(n)),
        Kind::MethodCall { name: _, receiver, args } => Position::Takes(
            if receiver == n {
                !hir.node(n).borrowed
            } else {
                args@.contains(n)
            },
        ),
        Kind::Assign { lhs: _, rhs } => Position::Takes(rhs == n),
        Kind::AssignOp { op: _, lhs: _, rhs } => Position::Takes(rhs == n),
        Kind::Struct { fields: _, base } => Position::Takes(base == Some(n)),
        Kind::Array { elements } => Position::Takes(elements@.contains(n)),
        Kind::Tup { elements } => Position::Takes(elements@.contains(n)),
        Kind::Repeat { element } => Position::Takes(element == n),
        Kind::Index { base: _, index } => Position::Takes(index == n || !hir.node(n).borrowed),
        Kind::Unary { .. } => Position::Takes(!hir.node(n).borrowed),
        Kind::Binary { .. } => Position::Takes(!hir.node(n).borrowed),
        Kind::Item { .. } => Position::Takes(returned(hir, n)),
        Kind::ImplItem { .. } => Position::Takes(returned(hir, n)),
        Kind::TraitItem { .. } => Position::Takes(returned(hir, n)),
        Kind::ForeignItem => Position::Takes(returned(hir, n)),
        _ => Position::Takes(false),
    }
}

/// The body gives back a `Binding`.
pub open spec fn returned(hir: Hir, n: usize) -> bool {
    hir.kind(n).is_expr() && hir.ty_is(hir.node(n).ty, Known::Binding)
}

fn contains_id(list: &Vec<usize>, id: usize) -> (r: bool)
    ensures
        r == list@.contains(id),
{
    let mut i: usize = 0;
    while i < list.len()
        invariant
            i <= list.len(),
            forall|k: int| 0 <= k < i ==> list@[k] != id,
        decreases list.len() - i,
    {
        if list[i] == id {
            assert(list@[i as int] == id);
            return true;
        }
        i = i + 1;
    }
    false
}

fn is_opt(id: Option<usize>, n: usize) -> (r: bool)
    ensures
        r == (id == Some(n)),
{
    match id {
        Some(id) => id == n,
        None => false,
    }
}

fn around_if(holds: bool) -> (r: Position)
    ensures
        r == (if holds {
            Position::Around
        } else {
            Position::Takes(false)
        }),
{
    if holds {
        Position::Around
    } else {
        Position::Takes(false)
    }
}

fn position(hir: &Hir, p: usize, n: usize) -> (r: Position)
    requires
        hir.wf(),
        hir.has(p),
        hir.has(n),
    ensures
        r == position_in(*hir, p, n),
{
    proof {
        assert(hir.node_wf(n));
    }
    match &hir.nodes[p].kind {
        Kind::FieldInit { value, .. } => Position::Takes(*value == n),
        Kind::Arm { body, .. } => around_if(*body == n),
        Kind::Block { tail, .. } => around_if(is_opt(*tail, n)),
        Kind::DropTemps { inner } => around_if(*inner == n),
        Kind::BlockExpr { block } => around_if(*block == n),
        Kind::If { then, els, .. } => around_if(*then == n || is_opt(*els, n)),
        Kind::Match { arms, .. } => around_if(contains_id(arms, n)),
        Kind::Ret { .. } | Kind::Break { .. } | Kind::Yield { .. } | Kind::Become { .. }
        | Kind::Closure { .. } => Position::Takes(true),
        Kind::Call { args, .. } => Position::Takes(contains_id(args, n)),
        Kind::MethodCall { receiver, args, .. } => Position::Takes(
            if *receiver == n {
                !hir.nodes[n].borrowed
            } else {
                contains_id(args, n)
            },
        ),
        Kind::Assign { rhs, .. } | Kind::AssignOp { rhs, .. } => Position::Takes(*rhs == n),
        Kind::Struct { base, .. } => Position::Takes(is_opt(*base, n)),
        Kind::Array { elements } | Kind::Tup { elements } => Position::Takes(
            contains_id(elements, n),
        ),
        Kind::Repeat { element } => Position::Takes(*element == n),
        Kind::Index { index, .. } => Position::Takes(*index == n || !hir.nodes[n].borrowed),
        Kind::Unary { .. } | Kind::Binary { .. } => Position::Takes(!hir.nodes[n].borrowed),
        Kind::Item { .. } | Kind::ImplItem { .. } | Kind::TraitItem { .. }
        | Kind::ForeignItem => Position::Takes(
            hir.nodes[n].kind.expr() && hir.is_adt(hir.nodes[n].ty, Known::Binding),
        ),
        _ => Position::Takes(false),
    }
}

/// The position of `n` takes the handle by value.
pub open spec fn takes(hir: Hir, n: usize) -> bool
    decreases hir.nodes@.len() - n,
{
    match hir.up(n) {
        Some(p) => match position_in(hir, p, n) {
            Position::Takes(taken) => taken,
            Position::Around => takes(hir, p),
        },
        None => false,
    }
}

/// Whether a use of a `Binding` parameter sits in a position that took the
/// handle by value: a field initializer, a call argument or by-value receiver,
/// an array or tuple element, a `..base`, an assignment's right side, a
/// `return`, `break` or `yield`, a closure's value, or a tail that yields
/// `Binding`. Borrowed positions (`&e`, `e.get()`-style `&self` receivers, field
/// reads, `let` initializers) keep working on `&Binding`. Tails of blocks, `if`s
/// and `match`es take on the context of what is around them.
pub fn consumed(hir: &Hir, n: usize) -> (r: bool)
    requires
        hir.wf(),
        hir.has(n),
    ensures
        r == takes(*hir, n),
    decreases hir.nodes.len() - n,
{
    match hir.parent(n) {
        Some(p) => match position(hir, p, n) {
            Position::Takes(taken) => taken,
            Position::Around => consumed(hir, p),
        },
        None => false,
    }
}

/// The innermost body around `n` is a closure that captures by value.
pub open spec fn owned_capture(hir: Hir, n: usize) -> bool
    decreases hir.nodes@.len() - n,
{
    match hir.up(n) {
        Some(p) => match hir.kind(p) {
            Kind::Closure { params: _, body: _, by_move } => by_move,
            Kind::ConstBlock { .. } => false,
            Kind::Item { .. } => false,
            Kind::ImplItem { .. } => false,
            Kind::TraitItem { .. } => false,
            _ => owned_capture(hir, p),
        },
        None => false,
    }
}

/// Whether the innermost body around `n` is a closure that captures by value:
/// the capture itself is a move.
pub fn captured_by_value(hir: &Hir, n: usize) -> (r: bool)
    requires
        hir.wf(),
        hir.has(n),
    ensures
        r == owned_capture(*hir, n),
    decreases hir.nodes.len() - n,
{
    match hir.parent(n) {
        Some(p) => match &hir.nodes[p].kind {
            Kind::Closure { by_move, .. } => *by_move,
            Kind::ConstBlock { .. } | Kind::Item { .. } | Kind::ImplItem { .. }
            | Kind::TraitItem { .. } => false,
            _ => captured_by_value(hir, p),
        },
        None => false,
    }
}

/// The field that `n` initializes in shorthand.
pub open spec fn shorthand_name(hir: Hir, n: usize) -> Option<Seq<char>> {
    match hir.up(n) {
        Some(p) => match hir.kind(p) {
            Kind::FieldInit { name, value: _ } => if hir.node(p).shorthand {
                Some(name.name@)
            } else {
                None
            },
            _ => None,
        },
        None => None,
    }
}

/// The `.clone()` edit for a use of a flagged parameter.
pub open spec fn use_edit(hir: Hir, n: usize) -> Option<Seq<char>> {
    if !owned_capture(hir, n) && !takes(hir, n) {
        None
    } else {
        match (hir.source(n), shorthand_name(hir, n)) {
            (Some(source), Some(name)) => Some(name + ": "@ + source + ".clone()"@),
            (Some(source), None) => Some(source + ".clone()"@),
            (None, _) => None,
        }
    }
}

/// The `.clone()` edit for a use of a flagged parameter; nothing when the use
/// only borrows. A shorthand field initializer is rewritten `f: f.clone()`, not
/// `f.clone()`, which would not parse.
pub fn edit(hir: &Hir, n: usize) -> (r: Option<String>)
    requires
        hir.wf(),
        hir.has(n),
    ensures
        text::text_opt(r) == use_edit(*hir, n),
{
    if !captured_by_value(hir, n) && !consumed(hir, n) {
        return None;
    }
    let source: String = match hir.snippet_opt(n) {
        Some(source) => source,
        None => {
            return None;
        },
    };
    if let Some(p) = hir.parent(n) {
        if hir.nodes[p].shorthand {
            if let Kind::FieldInit { name, .. } = &hir.nodes[p].kind {
                return Some(
                    text::cat4(name.name.as_str(), ": ", source.as_str(), ".clone()"),
                );
            }
        }
    }
    Some(text::cat(source.as_str(), ".clone()"))
}

/// The edit of an expression, where it is a use of one of the locals.
pub open spec fn edit_of(hir: Hir, n: usize, locals: Seq<usize>) -> Option<(Span, Seq<char>)> {
    match hir.local(n) {
        Some(id) => if locals.contains(id) && !hir.node(n).span.expanded() {
            match use_edit(hir, n) {
                Some(code) => Some((hir.node(n).span, code)),
                None => None,
            }
        } else {
            None
        },
        None => None,
    }
}

/// The edits of the first `n` expressions.
pub open spec fn edits_of(hir: Hir, list: Seq<usize>, locals: Seq<usize>, n: int) -> Seq<
    (Span, Seq<char>),
>
    decreases n,
{
    if n <= 0 {
        seq![]
    } else {
        let rest = edits_of(hir, list, locals, n - 1);
        match edit_of(hir, list[n - 1], locals) {
            Some(part) => rest.push(part),
            None => rest,
        }
    }
}

fn push_edits(hir: &Hir, body: usize, locals: &Vec<usize>, parts: &mut Vec<(Span, String)>)
    requires
        hir.wf(),
        hir.has(body),
    ensures
        diagnostics::part_views(final(parts)@) == diagnostics::part_views(old(parts)@) + edits_of(
            *hir,
            hir.exprs(body, true),
            locals@,
            hir.exprs(body, true).len() as int,
        ),
{
    let list: Vec<usize> = hir.exprs_in(body, true);
    let ghost before = diagnostics::part_views(parts@);
    let mut i: usize = 0;
    proof {
        assert(before =~= before + edits_of(*hir, list@, locals@, 0));
    }
    while i < list.len()
        invariant
            i <= list.len(),
            hir.wf(),
            hir.has(body),
            hir::all_below(list@, body + 1),
            diagnostics::part_views(parts@) == before + edits_of(
                *hir,
                list@,
                locals@,
                i as int,
            ),
        decreases list.len() - i,
    {
        let n: usize = list[i];
        let ghost prior = diagnostics::part_views(parts@);
        let own: bool = match hir.res_local(n) {
            Some(id) => contains_id(locals, id),
            None => false,
        };
        if own && !hir.nodes[n].span.from_expansion() {
            if let Some(code) = edit(hir, n) {
                let ghost part = (hir.node(n).span, code@);
                diagnostics::push_part(parts, hir.nodes[n].span, code);
                proof {
                    assert(prior.push(part) =~= before + edits_of(
                        *hir,
                        list@,
                        locals@,
                        i as int,
                    ).push(part));
                }
            }
        }
        i = i + 1;
    }
}

/// The edit of a call site of `def`.
pub open spec fn site_edit(hir: Hir, site: CallSite, def: usize) -> Option<(Span, Seq<char>)> {
    if site.callee != def {
        None
    } else {
        match hir.source(site.src) {
            Some(source) => Some((hir.node(site.arg).span, borrowing(hir, site.src) + source)),
            None => None,
        }
    }
}

/// The edits of those of the first `n` sites that call `def`.
pub open spec fn site_edits(hir: Hir, sites: Seq<CallSite>, def: usize, n: int) -> Seq<
    (Span, Seq<char>),
>
    decreases n,
{
    if n <= 0 {
        seq![]
    } else {
        let rest = site_edits(hir, sites, def, n - 1);
        match site_edit(hir, sites[n - 1], def) {
            Some(part) => rest.push(part),
            None => rest,
        }
    }
}

/// The sites' nodes are there.
pub open spec fn sites_fit(hir: Hir, sites: Seq<CallSite>) -> bool {
    forall|i: int|
        0 <= i < sites.len() ==> hir.has((#[trigger] sites[i]).arg) && hir.has(sites[i].src)
}

fn push_site_edits(
    hir: &Hir,
    sites: &Vec<CallSite>,
    def: usize,
    parts: &mut Vec<(Span, String)>,
)
    requires
        hir.wf(),
        sites_fit(*hir, sites@),
    ensures
        diagnostics::part_views(final(parts)@) == diagnostics::part_views(old(parts)@)
            + site_edits(*hir, sites@, def, sites@.len() as int),
{
    let ghost before = diagnostics::part_views(parts@);
    let mut i: usize = 0;
    proof {
        assert(before =~= before + site_edits(*hir, sites@, def, 0));
    }
    while i < sites.len()
        invariant
            i <= sites.len(),
            hir.wf(),
            sites_fit(*hir, sites@),
            diagnostics::part_views(parts@) == before + site_edits(*hir, sites@, def, i as int),
        decreases sites.len() - i,
    {
        let site: CallSite = sites[i];
        let ghost prior = diagnostics::part_views(parts@);
        if site.callee == def {
            if let Some(source) = hir.snippet_opt(site.src) {
                let prefix: String = borrow_prefix(hir, site.src);
                let code: String = text::cat(prefix.as_str(), source.as_str());
                let ghost part = (hir.node(site.arg).span, code@);
                diagnostics::push_part(parts, hir.nodes[site.arg].span, code);
                proof {
                    assert(prior.push(part) =~= before + site_edits(
                        *hir,
                        sites@,
                        def,
                        i as int,
                    ).push(part));
                }
            }
        }
        i = i + 1;
    }
}

/// Those of the first `n` places at which a type is written by hand.
pub open spec fn written_places(hir: Hir, written: Seq<usize>, places: Seq<usize>, n: int) -> Seq<
    usize,
>
    decreases n,
{
    if n <= 0 {
        seq![]
    } else {
        let rest = written_places(hir, written, places, n - 1);
        let place = places[n - 1];
        if place < written.len() && !hir.node(written[place as int]).span.expanded() {
            rest.push(place)
        } else {
            rest
        }
    }
}

/// The places at which a type is written by hand, not by a macro.
pub fn hand_written(hir: &Hir, written: &Vec<usize>, places: &Vec<usize>) -> (r: Vec<usize>)
    requires
        hir::all_below(written@, hir.nodes@.len() as int),
    ensures
        r@ == written_places(*hir, written@, places@, places@.len() as int),
        hir::all_below(r@, written@.len() as int),
{
    let mut out: Vec<usize> = Vec::new();
    let mut i: usize = 0;
    proof {
        assert(out@ =~= seq![]);
    }
    while i < places.len()
        invariant
            i <= places.len(),
            hir::all_below(written@, hir.nodes@.len() as int),
            out@ == written_places(*hir, written@, places@, i as int),
            hir::all_below(out@, written@.len() as int),
        decreases places.len() - i,
    {
        let place: usize = places[i];
        if place < written.len() && !hir.nodes[written[place]].span.from_expansion() {
            out.push(place);
        }
        i = i + 1;
    }
    out
}

/// The locals that the first `n` places bind; nothing where a pattern is not a
/// plain `name`, `mut name` or `_`.
pub open spec fn bound_locals(hir: Hir, params: Seq<usize>, places: Seq<usize>, n: int) -> Option<
    Seq<usize>,
>
    decreases n,
{
    if n <= 0 {
        Some(seq![])
    } else {
        match (
            bound_locals(hir, params, places, n - 1),
            signature::param_at(hir, params, places[n - 1] as int),
        ) {
            (Some(rest), Some(pat)) => match hir.kind(pat) {
                Kind::Binding { name: _, id, sub: None } => if hir.node(pat).by_ref {
                    None
                } else {
                    Some(rest.push(id))
                },
                Kind::Wild => Some(rest),
                _ => None,
            },
            _ => None,
        }
    }
}

proof fn lemma_unbound(hir: Hir, params: Seq<usize>, places: Seq<usize>, m: int, n: int)
    requires
        m <= n,
        bound_locals(hir, params, places, m) is None,
    ensures
        bound_locals(hir, params, places, n) is None,
    decreases n,
{
    if m < n && n > 0 {
        lemma_unbound(hir, params, places, m, n - 1);
    }
}

fn plain_locals(hir: &Hir, params: &Vec<usize>, places: &Vec<usize>) -> (r: Option<Vec<usize>>)
    requires
        hir.wf(),
        hir::all_below(params@, hir.nodes@.len() as int),
    ensures
        match r {
            Some(locals) => bound_locals(*hir, params@, places@, places@.len() as int) == Some(
                locals@,
            ),
            None => bound_locals(*hir, params@, places@, places@.len() as int) is None,
        },
{
    let mut out: Vec<usize> = Vec::new();
    let mut i: usize = 0;
    proof {
        assert(out@ =~= seq![]);
    }
    while i < places.len()
        invariant
            i <= places.len(),
            hir.wf(),
            hir::all_below(params@, hir.nodes@.len() as int),
            bound_locals(*hir, params@, places@, i as int) == Some(out@),
        decreases places.len() - i,
    {
        let pat: usize = match signature::param_pat_at(hir, params, places[i]) {
            Some(pat) => pat,
            None => {
                proof {
                    lemma_unbound(*hir, params@, places@, i + 1, places@.len() as int);
                }
                return None;
            },
        };
        let plain: bool = !hir.nodes[pat].by_ref;
        match &hir.nodes[pat].kind {
            Kind::Binding { id, sub: None, .. } => {
                if !plain {
                    proof {
                        lemma_unbound(*hir, params@, places@, i + 1, places@.len() as int);
                    }
                    return None;
                }
                out.push(*id);
            },
            Kind::Wild => {},
            _ => {
                proof {
                    lemma_unbound(*hir, params@, places@, i + 1, places@.len() as int);
                }
                return None;
            },
        }
        i = i + 1;
    }
    Some(out)
}

/// `&` in front of the types at the first `n` places.
pub open spec fn type_edits(hir: Hir, written: Seq<usize>, places: Seq<usize>, n: int) -> Seq<
    (Span, Seq<char>),
>
    decreases n,
{
    if n <= 0 {
        seq![]
    } else {
        type_edits(hir, written, places, n - 1).push(
            (hir.node(written[places[n - 1] as int]).span.start(), "&"@),
        )
    }
}

/// The edits inside a function's body.
pub open spec fn body_edits(hir: Hir, body: Option<usize>, locals: Seq<usize>) -> Seq<
    (Span, Seq<char>),
> {
    match body {
        Some(body) => if locals.len() > 0 {
            edits_of(
                hir,
                hir.exprs(body, true),
                locals,
                hir.exprs(body, true).len() as int,
            )
        } else {
            seq![]
        },
        None => seq![],
    }
}

/// The locals that a function's body knows the parameters by.
pub open spec fn locals_in(hir: Hir, f: Function, places: Seq<usize>) -> Option<Seq<usize>> {
    let (params, body) = signature::params_and_body(hir, f.node);
    match body {
        Some(_) => bound_locals(hir, params, places, places.len() as int),
        None => Some(seq![]),
    }
}

/// What is said of a function.
pub open spec fn report_of(hir: Hir, f: Function, sites: Seq<CallSite>) -> Option<DiagnosticView> {
    let (params, body) = signature::params_and_body(hir, f.node);
    let all = binding_places(hir, f);
    let places = written_places(hir, f.written@, all, all.len() as int);
    match locals_in(hir, f, places) {
        Some(locals) => if places.len() == 0 {
            None
        } else {
            let found = DiagnosticView::bare(
                Lint::BindingParameterByValue,
                hir.node(f.written@[places[0] as int]).span,
                "a public function takes `Binding<T>` by value; take `&Binding<T>`"@,
            ).with(
                RemarkView::Multipart {
                    label: "the callee clones if it keeps the handle; callers pass `&b`"@,
                    parts: type_edits(hir, f.written@, places, places.len() as int) + body_edits(
                        hir,
                        body,
                        locals,
                    ) + site_edits(hir, sites, f.def, sites.len() as int),
                    applicability: Applicability::MaybeIncorrect,
                },
            );
            Some(
                if f.home == FnHome::TraitMember {
                    found.with(
                        RemarkView::Note(
                            "every implementor of this trait must make the same change"@,
                        ),
                    )
                } else {
                    found
                },
            )
        },
        None => None,
    }
}

fn type_parts(hir: &Hir, written: &Vec<usize>, places: &Vec<usize>) -> (r: Vec<(Span, String)>)
    requires
        hir::all_below(written@, hir.nodes@.len() as int),
        hir::all_below(places@, written@.len() as int),
    ensures
        diagnostics::part_views(r@) == type_edits(
            *hir,
            written@,
            places@,
            places@.len() as int,
        ),
{
    let mut out: Vec<(Span, String)> = Vec::new();
    let mut i: usize = 0;
    proof {
        assert(diagnostics::part_views(out@) =~= seq![]);
    }
    while i < places.len()
        invariant
            i <= places.len(),
            hir::all_below(written@, hir.nodes@.len() as int),
            hir::all_below(places@, written@.len() as int),
            diagnostics::part_views(out@) == type_edits(*hir, written@, places@, i as int),
        decreases places.len() - i,
    {
        diagnostics::push_part(
            &mut out,
            hir.nodes[written[places[i]]].span.shrink_to_lo(),
            "&".to_owned(),
        );
        i = i + 1;
    }
    out
}

fn report(hir: &Hir, f: &Function, sites: &Vec<CallSite>) -> (r: Option<Diagnostic>)
    requires
        hir.wf(),
        f.fits(*hir),
        sites_fit(*hir, sites@),
    ensures
        diagnostics::found(r) == report_of(*hir, *f, sites@),
{
    let (params, body) = signature::signature_of(hir, f.node);
    let all: Vec<usize> = binding_params(hir, f);
    let places: Vec<usize> = hand_written(hir, &f.written, &all);
    if places.len() == 0 {
        return None;
    }
    let locals: Vec<usize> = match body {
        Some(_) => match plain_locals(hir, &params, &places) {
            Some(locals) => locals,
            None => {
                return None;
            },
        },
        None => {
            let none: Vec<usize> = Vec::new();
            proof {
                assert(none@ =~= seq![]);
            }
            none
        },
    };
    let mut parts: Vec<(Span, String)> = type_parts(hir, &f.written, &places);
    let ghost types = diagnostics::part_views(parts@);
    match body {
        Some(body) => {
            if locals.len() > 0 {
                push_edits(hir, body, &locals, &mut parts);
            } else {
                proof {
                    assert(types =~= types + seq![]);
                }
            }
        },
        None => {
            proof {
                assert(types =~= types + seq![]);
            }
        },
    }
    push_site_edits(hir, sites, f.def, &mut parts);
    let mut found: Diagnostic = Diagnostic::bare(
        Lint::BindingParameterByValue,
        hir.nodes[f.written[places[0]]].span,
        "a public function takes `Binding<T>` by value; take `&Binding<T>`",
    );
    found.multipart_suggestion(
        "the callee clones if it keeps the handle; callers pass `&b`",
        parts,
        Applicability::MaybeIncorrect,
    );
    if f.home == FnHome::TraitMember {
        found.note("every implementor of this trait must make the same change".to_owned());
    }
    Some(found)
}

/// The functions with a bare `Binding<T>` parameter, in the order in which they
/// are visited, and the rewrites of their call sites.
#[derive(Debug)]
pub struct BindingParameterByValue {
    /// The functions, by place in the list of the crate's functions.
    pub sigs: Vec<usize>,
    pub call_sites: Vec<CallSite>,
}

/// Some site of `def` clones a handle to pass it.
pub open spec fn cloned_for(sites: Seq<CallSite>, def: usize) -> bool {
    exists|i: int|
        0 <= i < sites.len() && (#[trigger] sites[i]).callee == def && sites[i].cloned
}

/// What is said of the first `n` functions.
pub open spec fn reports(
    hir: Hir,
    fns: Seq<Function>,
    sigs: Seq<usize>,
    sites: Seq<CallSite>,
    n: int,
) -> Seq<DiagnosticView>
    decreases n,
{
    if n <= 0 {
        seq![]
    } else {
        let rest = reports(hir, fns, sigs, sites, n - 1);
        let f = fns[sigs[n - 1] as int];
        rest + diagnostics::found_seq(
            if f.is_public() || cloned_for(sites, f.def) {
                report_of(hir, f, sites)
            } else {
                None
            },
        )
    }
}

/// A private function is reported only for a caller that clones: where none of
/// the recorded functions is public or has such a caller, nothing is said.
pub proof fn private_functions_need_a_cloning_caller(
    hir: Hir,
    fns: Seq<Function>,
    sigs: Seq<usize>,
    sites: Seq<CallSite>,
    n: int,
)
    requires
        0 <= n <= sigs.len(),
        forall|k: int|
            0 <= k < n ==> !fns[#[trigger] sigs[k] as int].is_public() && !cloned_for(
                sites,
                fns[sigs[k] as int].def,
            ),
    ensures
        reports(hir, fns, sigs, sites, n).len() == 0,
    decreases n,
{
    if n > 0 {
        private_functions_need_a_cloning_caller(hir, fns, sigs, sites, n - 1);
        assert(!fns[sigs[n - 1] as int].is_public());
    }
}

impl BindingParameterByValue {
    /// What was recorded is in range, and only functions whose signatures can be
    /// changed were.
    pub open spec fn fits(self, hir: Hir, fns: Seq<Function>) -> bool {
        &&& hir::all_below(self.sigs@, fns.len() as int)
        &&& forall|k: int|
            0 <= k < self.sigs@.len() ==> fns[#[trigger] self.sigs@[k] as int].changeable()
        &&& sites_fit(hir, self.call_sites@)
    }

    /// Nothing recorded.
    pub fn new() -> (r: BindingParameterByValue)
        ensures
            r.sigs@.len() == 0,
            r.call_sites@.len() == 0,
            forall|hir: Hir, fns: Seq<Function>| r.fits(hir, fns),
    {
        BindingParameterByValue { sigs: Vec::new(), call_sites: Vec::new() }
    }

    /// Records the function where its signature can be changed and takes a
    /// `Binding<T>`. The signatures of `impl Trait for Type` members are fixed by
    /// the trait; calls to them count toward the trait item instead.
    pub fn check_fn(&mut self, hir: &Hir, fns: &Vec<Function>, i: usize)
        requires
            old(self).fits(*hir, fns@),
            i < fns.len(),
            fns[i as int].fits(*hir),
        ensures
            final(self).fits(*hir, fns@),
            final(self).call_sites == old(self).call_sites,
            final(self).sigs@ == (if fns[i as int].changeable() && binding_places(
                *hir,
                fns[i as int],
            ).len() > 0 {
                old(self).sigs@.push(i)
            } else {
                old(self).sigs@
            }),
    {
        if fns[i].collectable() && binding_params(hir, &fns[i]).len() > 0 {
            self.sigs.push(i);
        }
    }

    /// Records the `Binding` arguments of a call of one of the crate's functions:
    /// `f(b.clone())` becomes `f(&b)` and is the trigger for a private signature;
    /// any other argument is borrowed as written.
    pub fn check_expr(&mut self, hir: &Hir, fns: &Vec<Function>, n: usize)
        requires
            hir.wf(),
            hir.has(n),
            signature::all_fit(*hir, fns@),
            old(self).fits(*hir, fns@),
        ensures
            final(self).fits(*hir, fns@),
            final(self).sigs == old(self).sigs,
            final(self).call_sites@ == old(self).call_sites@ + sites_of(*hir, fns@, n),
    {
        let ghost before = self.call_sites@;
        let i: usize = match signature::called_function(hir, fns, n) {
            Some(i) => i,
            None => {
                proof {
                    assert(before =~= before + sites_of(*hir, fns@, n));
                }
                return;
            },
        };
        let def: usize = fns[i].def;
        let places: Vec<usize> = binding_params(hir, &fns[i]);
        let args: Vec<usize> = hir.call_args(n);
        let mut k: usize = 0;
        proof {
            assert(before =~= before + sites_at_places(*hir, def, args@, places@, 0));
        }
        while k < places.len()
            invariant
                k <= places.len(),
                hir.wf(),
                hir.has(n),
                hir::all_below(args@, n as int),
                self.sigs == old(self).sigs,
                self.fits(*hir, fns@),
                self.call_sites@ == before + sites_at_places(
                    *hir,
                    def,
                    args@,
                    places@,
                    k as int,
                ),
            decreases places.len() - k,
        {
            let ghost prior = self.call_sites@;
            if places[k] < args.len() {
                let site: CallSite = call_site(hir, def, args[places[k]]);
                self.call_sites.push(site);
                proof {
                    assert(prior.push(site) =~= before + sites_at_places(
                        *hir,
                        def,
                        args@,
                        places@,
                        k as int,
                    ).push(site));
                }
            }
            k = k + 1;
        }
    }

    fn clones(&self, def: usize) -> (r: bool)
        ensures
            r == cloned_for(self.call_sites@, def),
    {
        let mut i: usize = 0;
        while i < self.call_sites.len()
            invariant
                i <= self.call_sites.len(),
                forall|k: int|
                    0 <= k < i ==> !((#[trigger] self.call_sites@[k]).callee == def
                        && self.call_sites@[k].cloned),
            decreases self.call_sites.len() - i,
        {
            if self.call_sites[i].callee == def && self.call_sites[i].cloned {
                assert(self.call_sites@[i as int].callee == def);
                return true;
            }
            i = i + 1;
        }
        false
    }

    /// Reports the public functions, and the private ones that already have a
    /// call site passing `f(b.clone())`: one is enough, since the caller clones
    /// only because the signature takes the handle.
    pub fn check_crate_post(&self, hir: &Hir, fns: &Vec<Function>) -> (r: Vec<Diagnostic>)
        requires
            hir.wf(),
            signature::all_fit(*hir, fns@),
            self.fits(*hir, fns@),
        ensures
            diagnostics::found_all(r@) == reports(
                *hir,
                fns@,
                self.sigs@,
                self.call_sites@,
                self.sigs@.len() as int,
            ),
    {
        let mut out: Vec<Diagnostic> = Vec::new();
        let mut i: usize = 0;
        proof {
            assert(diagnostics::found_all(out@) =~= seq![]);
        }
        while i < self.sigs.len()
            invariant
                i <= self.sigs.len(),
                hir.wf(),
                signature::all_fit(*hir, fns@),
                self.fits(*hir, fns@),
                diagnostics::found_all(out@) == reports(
                    *hir,
                    fns@,
                    self.sigs@,
                    self.call_sites@,
                    i as int,
                ),
            decreases self.sigs.len() - i,
        {
            let f: &Function = &fns[self.sigs[i]];
            let finding: Option<Diagnostic> = if f.public_signature() || self.clones(f.def) {
                report(hir, f, &self.call_sites)
            } else {
                None
            };
            diagnostics::push_found(&mut out, finding);
            i = i + 1;
        }
        out
    }
}

proof fn lemma_binding_inputs(hir: Hir, inputs: Seq<usize>, n: int, i: usize)
    requires
        0 <= n <= inputs.len() <= usize::MAX,
    ensures
        binding_inputs(hir, inputs, n).contains(i) <==> i < n && hir.ty_is(
            inputs[i as int],
            Known::Binding,
        ),
    decreases n,
{
    if n > 0 {
        lemma_binding_inputs(hir, inputs, n - 1, i);
        let all = binding_inputs(hir, inputs, n);
        let rest = binding_inputs(hir, inputs, n - 1);
        if all.contains(i) {
            let k = choose|k: int| 0 <= k < all.len() && all[k] == i;
            if k < rest.len() {
                assert(rest[k] == i);
            }
        }
        if i < n && hir.ty_is(inputs[i as int], Known::Binding) {
            if i < n - 1 {
                let k = choose|k: int| 0 <= k < rest.len() && rest[k] == i;
                assert(all[k] == i);
            } else {
                assert(all[rest.len() as int] == i);
            }
        }
    }
}

/// The parameters that are looked at are exactly those that take a `Binding` by
/// value.
pub proof fn binding_parameters_are_found(hir: Hir, f: Function, i: usize)
    ensures
        binding_places(hir, f).contains(i) <==> i < f.inputs@.len() && hir.ty_is(
            f.inputs@[i as int],
            Known::Binding,
        ),
{
    assert(f.inputs.len() == f.inputs@.len());
    lemma_binding_inputs(hir, f.inputs@, f.inputs@.len() as int, i);
}

/// A caller lends what it gave: in place of `f(b.clone())` it passes a borrow of
/// `b`, and in place of any other `f(e)` a borrow of `e`. A handle is borrowed as
/// it stands, and one behind references is borrowed anew behind as many.
pub proof fn callers_lend_what_they_gave(hir: Hir, def: usize, arg: usize)
    ensures
        ({
            let lent = match (hir.calls_item(arg, Known::Clone), hir.first_operand(arg)) {
                (true, Some(receiver)) => receiver,
                _ => arg,
            };
            site_edit(hir, site_of(hir, def, arg), def) matches Some(part) ==> {
                &&& part.0 == hir.node(arg).span
                &&& hir.source(lent) matches Some(source)
                &&& part.1 == borrowing(hir, lent) + source
                &&& hir.ty_is(hir.node(lent).ty, Known::Binding) && !(hir.ty(
                    hir.node(lent).ty,
                ).kind is Ref) ==> part.1 == "&"@ + source
                &&& hir.ty(hir.node(lent).ty).kind matches TyKind::Ref { inner, mutable: _ } ==> (
                inner < hir.node(lent).ty && hir.ty_is(inner, Known::Binding) && !(hir.ty(
                    inner,
                ).kind is Ref) ==> part.1 == "&*"@ + source)
            }
        }),
        hir.calls_item(arg, Known::Clone) && hir.first_operand(arg) is Some ==> site_of(
            hir,
            def,
            arg,
        ).cloned,
        !hir.calls_item(arg, Known::Clone) ==> !site_of(hir, def, arg).cloned,
{
    let site = site_of(hir, def, arg);
    let t = hir.node(site.src).ty;
    reveal_with_fuel(ref_depth, 3);
    reveal_with_fuel(binding::stars, 3);
    reveal_with_fuel(Hir::referent, 3);
    reveal_strlit("&");
    reveal_strlit("&*");
    assert("&"@ + binding::stars(0) =~= "&"@);
    assert(binding::stars(1) =~= seq!['*']);
    assert("&"@ + binding::stars(1) =~= "&*"@);
}

/// Inside, a parameter that is handed on keeps its handle by a clone: one passed
/// as an argument, returned or put into a collection is cloned there; one that
/// is only borrowed is left as it is.
pub proof fn kept_handles_are_cloned(hir: Hir, n: usize, p: usize, source: Seq<char>)
    requires
        hir.up(n) == Some(p),
        hir.source(n) == Some(source),
        !owned_capture(hir, n),
    ensures
        match hir.kind(p) {
            Kind::Call { func: _, args } => args@.contains(n) ==> use_edit(hir, n) == Some(
                source + ".clone()"@,
            ),
            Kind::MethodCall { name: _, receiver, args } => {
                &&& receiver == n && hir.node(n).borrowed ==> use_edit(hir, n) is None
                &&& receiver != n && args@.contains(n) ==> use_edit(hir, n) == Some(
                    source + ".clone()"@,
                )
            },
            Kind::Ret { .. } => use_edit(hir, n) == Some(source + ".clone()"@),
            Kind::Array { elements } => elements@.contains(n) ==> use_edit(hir, n) == Some(
                source + ".clone()"@,
            ),
            Kind::Tup { elements } => elements@.contains(n) ==> use_edit(hir, n) == Some(
                source + ".clone()"@,
            ),
            Kind::AddrOf { .. } => use_edit(hir, n) is None,
            Kind::Item { .. } => hir.kind(n).is_expr() ==> (use_edit(hir, n) == Some(
                source + ".clone()"@,
            ) <==> hir.ty_is(hir.node(n).ty, Known::Binding)),
            Kind::ImplItem { .. } => hir.kind(n).is_expr() ==> (use_edit(hir, n) == Some(
                source + ".clone()"@,
            ) <==> hir.ty_is(hir.node(n).ty, Known::Binding)),
            Kind::FieldInit { name, value } => value == n ==> use_edit(hir, n) == (
            if hir.node(p).shorthand {
                Some(name.name@ + ": "@ + source + ".clone()"@)
            } else {
                Some(source + ".clone()"@)
            }),
            _ => true,
        },
{
}

proof fn lemma_type_edits(hir: Hir, written: Seq<usize>, places: Seq<usize>, n: int, k: int)
    requires
        0 <= k < n <= places.len(),
    ensures
        type_edits(hir, written, places, n).len() == n,
        type_edits(hir, written, places, n)[k] == (
            hir.node(written[places[k] as int]).span.start(),
            "&"@,
        ),
    decreases n,
{
    if n > 1 {
        if k < n - 1 {
            lemma_type_edits(hir, written, places, n - 1, k);
        } else {
            lemma_type_edits(hir, written, places, n - 1, 0);
        }
    } else {
        assert(type_edits(hir, written, places, 0) =~= seq![]);
    }
}

/// The fix puts a `&` in front of the written type of each flagged parameter.
pub proof fn flagged_parameters_become_references(
    hir: Hir,
    f: Function,
    sites: Seq<CallSite>,
    k: int,
)
    requires
        ({
            let all = binding_places(hir, f);
            0 <= k < written_places(hir, f.written@, all, all.len() as int).len()
        }),
    ensures
        report_of(hir, f, sites) matches Some(finding) ==> {
            let all = binding_places(hir, f);
            let places = written_places(hir, f.written@, all, all.len() as int);
            &&& finding.remarks[0] matches RemarkView::Multipart { label: _, parts, applicability: _ }
            &&& parts.len() >= places.len()
            &&& parts[k] == (hir.node(f.written@[places[k] as int]).span.start(), "&"@)
        },
{
    let all = binding_places(hir, f);
    let places = written_places(hir, f.written@, all, all.len() as int);
    lemma_type_edits(hir, f.written@, places, places.len() as int, k);
}

} // verus!
