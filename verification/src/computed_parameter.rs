//! `computed_parameter`: a `Computed<T>` parameter where callers could pass any
//! signal.

use crate::binding;
use crate::binding::Nameable;
use crate::binding_parameter_by_value;
use crate::diagnostics;
use crate::diagnostics::{Applicability, Diagnostic, DiagnosticView, RemarkView};
use crate::hir;
use crate::hir::{DefKind, Hir, Kind, Namespace, Res, Span, TyKind, UnOp};
use crate::imports;
use crate::imports::{Bare, Module, Query};
use crate::known::Known;
use crate::lint::Lint;
use crate::signature;
use crate::signature::{FnHome, Function};
use crate::text;
use vstd::prelude::*;

verus! {

/// The `T` of `Computed<T>` or `&Computed<T>`.
pub open spec fn computed_value(hir: Hir, t: usize) -> Option<usize> {
    match hir.ty(t).kind {
        TyKind::Ref { inner, mutable: _ } => hir.ty_arg(inner, Known::Computed, 0),
        _ => hir.ty_arg(t, Known::Computed, 0),
    }
}

fn computed_arg(hir: &Hir, t: usize) -> (r: Option<usize>)
    requires
        hir.wf(),
        t < hir.types.len(),
    ensures
        r == computed_value(*hir, t),
        r matches Some(a) ==> a < hir.types.len(),
{
    proof {
        assert(hir.types@[t as int].below(t as int));
    }
    match &hir.types[t].kind {
        TyKind::Ref { inner, .. } => hir.adt_arg(*inner, Known::Computed, 0),
        _ => hir.adt_arg(t, Known::Computed, 0),
    }
}

/// The places below `n` of the inputs that are `Computed<T>` or `&Computed<T>`.
pub open spec fn computed_inputs(hir: Hir, inputs: Seq<usize>, n: int) -> Seq<usize>
    decreases n,
{
    if n <= 0 {
        seq![]
    } else if computed_value(hir, inputs[n - 1]) is Some {
        computed_inputs(hir, inputs, n - 1).push((n - 1) as usize)
    } else {
        computed_inputs(hir, inputs, n - 1)
    }
}

/// The places of a function's `Computed` parameters.
pub open spec fn computed_places(hir: Hir, f: Function) -> Seq<usize> {
    computed_inputs(hir, f.inputs@, f.inputs@.len() as int)
}

/// The places of the function's parameters typed `Computed<T>` or `&Computed<T>`.
pub fn computed_params(hir: &Hir, f: &Function) -> (r: Vec<usize>)
    requires
        hir.wf(),
        f.fits(*hir),
    ensures
        r@ == computed_places(*hir, *f),
        hir::all_below(r@, f.inputs@.len() as int),
{
    let mut out: Vec<usize> = Vec::new();
    let mut i: usize = 0;
    proof {
        assert(out@ =~= seq![]);
    }
    while i < f.inputs.len()
        invariant
            i <= f.inputs.len(),
            hir.wf(),
            f.fits(*hir),
            out@ == computed_inputs(*hir, f.inputs@, i as int),
            hir::all_below(out@, f.inputs@.len() as int),
        decreases f.inputs.len() - i,
    {
        if computed_arg(hir, f.inputs[i]).is_some() {
            out.push(i);
        }
        i = i + 1;
    }
    out
}

/// The expression names a place that is there already.
pub open spec fn names_place(hir: Hir, n: usize) -> bool
    decreases n,
{
    match hir.kind(n) {
        Kind::DropTemps { inner } => inner < n && names_place(hir, inner),
        Kind::AddrOf { mutable: _, raw: _, operand } => operand < n && names_place(hir, operand),
        Kind::Unary { op: UnOp::Deref, operand } => operand < n && names_place(hir, operand),
        Kind::Path { plain, segments: _, res } => plain && match res {
            Res::Local(_) => true,
            Res::Def { def: _, kind } => kind == DefKind::Const || kind == DefKind::Static,
            Res::Other => false,
        },
        Kind::Field { base, name: _ } => base < n && names_place(hir, base),
        Kind::Index { base, index: _ } => base < n && names_place(hir, base),
        _ => if hir.calls_item(n, Known::Clone) {
            match hir.first_operand(n) {
                Some(receiver) => receiver < n && names_place(hir, receiver),
                None => false,
            }
        } else {
            false
        },
    }
}

/// Whether the expression passed for a `Computed` parameter is a plain place (a
/// bare local or field chain, its `.clone()`, or a borrow or deref of one)
/// rather than an erasing expression like `Computed::constant(..)`,
/// `signal.map(..).computed()`, or `x.into()`.
pub fn is_place(hir: &Hir, n: usize) -> (r: bool)
    requires
        hir.wf(),
        hir.has(n),
    ensures
        r == names_place(*hir, n),
    decreases n,
{
    proof {
        assert(hir.node_wf(n));
    }
    match &hir.nodes[n].kind {
        Kind::DropTemps { inner } => {
            return is_place(hir, *inner);
        },
        Kind::AddrOf { operand, .. } | Kind::Unary { op: UnOp::Deref, operand } => {
            return is_place(hir, *operand);
        },
        Kind::Path { plain, res, .. } => {
            return *plain && match res {
                Res::Local(_) => true,
                Res::Def { kind, .. } => *kind == DefKind::Const || *kind == DefKind::Static,
                Res::Other => false,
            };
        },
        Kind::Field { base, .. } | Kind::Index { base, .. } => {
            return is_place(hir, *base);
        },
        _ => {},
    }
    if !hir.is_call_of(n, Known::Clone) {
        return false;
    }
    match hir.first_arg(n) {
        Some(receiver) => is_place(hir, receiver),
        None => false,
    }
}

/// One of the places is filled by something other than a place that is there
/// already.
pub open spec fn erases(hir: Hir, args: Seq<usize>, places: Seq<usize>) -> bool {
    exists|i: int|
        0 <= i < places.len() && (#[trigger] places[i]) < args.len() && !names_place(
            hir,
            args[places[i] as int],
        )
}

fn is_erasing(hir: &Hir, args: &Vec<usize>, places: &Vec<usize>) -> (r: bool)
    requires
        hir.wf(),
        hir::all_below(args@, hir.nodes@.len() as int),
    ensures
        r == erases(*hir, args@, places@),
{
    let mut i: usize = 0;
    while i < places.len()
        invariant
            i <= places.len(),
            hir.wf(),
            hir::all_below(args@, hir.nodes@.len() as int),
            forall|k: int|
                0 <= k < i ==> !((#[trigger] places@[k]) < args@.len() && !names_place(
                    *hir,
                    args@[places@[k] as int],
                )),
        decreases places.len() - i,
    {
        if places[i] < args.len() && !is_place(hir, args[places[i]]) {
            assert(places@[i as int] < args@.len());
            return true;
        }
        i = i + 1;
    }
    false
}

/// The function that an expression erases a signal for.
pub open spec fn erased_for(hir: Hir, fns: Seq<Function>, n: usize) -> Option<usize> {
    match signature::called(hir, fns, n) {
        Some(i) => if erases(hir, hir.operands(n), computed_places(hir, fns[i])) {
            Some(fns[i].def)
        } else {
            None
        },
        None => None,
    }
}

/// The written type inside `Computed<T>` or `&Computed<T>`.
pub open spec fn written_value(hir: Hir, written: usize) -> Option<usize> {
    let ty = match hir.kind(written) {
        Kind::RefTy { inner } => inner,
        _ => written,
    };
    match hir.kind(ty) {
        Kind::PathTy { res: Res::Def { def, kind: _ } } => if hir.node(ty).qself is None
            && hir.is_def(def, Known::Computed) {
            match hir.node(ty).path_args {
                Some(args) => if args.types@.len() > 0 {
                    Some(args.types@[0])
                } else {
                    None
                },
                None => None,
            }
        } else {
            None
        },
        _ => None,
    }
}

fn written_arg(hir: &Hir, written: usize) -> (r: Option<usize>)
    requires
        hir.wf(),
        hir.has(written),
    ensures
        r == written_value(*hir, written),
        r matches Some(t) ==> hir.has(t),
{
    proof {
        assert(hir.node_wf(written));
    }
    let ty: usize = match &hir.nodes[written].kind {
        Kind::RefTy { inner } => *inner,
        _ => written,
    };
    proof {
        assert(hir.node_wf(ty));
    }
    match &hir.nodes[ty].kind {
        Kind::PathTy { res: Res::Def { def, .. } } => {
            if hir.nodes[ty].qself.is_some() || !hir.def_path_eq(*def, Known::Computed) {
                return None;
            }
            match &hir.nodes[ty].path_args {
                Some(args) => if args.types.len() > 0 {
                    Some(args.types[0])
                } else {
                    None
                },
                None => None,
            }
        },
        _ => None,
    }
}

/// The `T` to spell inside `IntoComputed<T>`.
pub open spec fn value_text(hir: Hir, written: usize, t: usize) -> Seq<char> {
    let spelled = match written_value(hir, written) {
        Some(arg) => hir.source(arg),
        None => None,
    };
    match (spelled, computed_value(hir, t)) {
        (Some(text), _) => text,
        (None, Some(value)) => hir.ty(value).text@,
        (None, None) => seq![],
    }
}

/// The `T` to spell inside `IntoComputed<T>`: the written argument when the
/// signature names `Computed` directly, else the resolved type as it is
/// displayed (a renamed import or an alias).
pub fn inner_text(hir: &Hir, written: usize, t: usize) -> (r: String)
    requires
        hir.wf(),
        hir.has(written),
        t < hir.types.len(),
    ensures
        r@ == value_text(*hir, written, t),
{
    if let Some(arg) = written_arg(hir, written) {
        if let Some(text) = hir.snippet_opt(arg) {
            return text;
        }
    }
    match computed_arg(hir, t) {
        Some(value) => hir.types[value].text.clone(),
        None => {
            let none: String = String::new();
            proof {
                assert(none@ =~= seq![]);
            }
            none
        },
    }
}

/// The path to `IntoComputed` through a crate.
pub open spec fn into_computed_path(krate: Seq<char>) -> Seq<char> {
    krate + "::signal::IntoComputed"@
}

/// How `IntoComputed` is spelled, and the `use` that the name needs.
pub open spec fn trait_spelling(module: Module, nameable: Nameable, status: Bare) -> Option<
    (Seq<char>, Option<(Span, Seq<char>)>),
> {
    match (status, binding::root_of(nameable)) {
        (Bare::Same, _) => Some(("IntoComputed"@, None)),
        (_, None) => None,
        (_, Some(krate)) => {
            let path = into_computed_path(krate);
            let import = binding::use_part(module, path);
            if status == Bare::Free && import is Some {
                Some(("IntoComputed"@, import))
            } else {
                Some((path, None))
            }
        },
    }
}

/// The `impl IntoComputed` signature spelling: bare `IntoComputed` when the name
/// already resolves to the trait or a `use` can be placed, crate-qualified when
/// the bare name is taken, ambiguous, or unplaceable. A qualified spelling needs
/// no import for `.into_computed()`: an `impl Trait` parameter's bounds put the
/// trait's methods in scope for that parameter. Nothing when neither `waterui`
/// nor `nami` is nameable.
pub fn into_computed_spelling(module: &Module, nameable: Nameable, status: Bare) -> (r: Option<
    (String, Option<(Span, String)>),
>)
    ensures
        match r {
            Some((name, import)) => trait_spelling(*module, nameable, status) == Some(
                (name@, diagnostics::part_opt(import)),
            ),
            None => trait_spelling(*module, nameable, status) is None,
        },
{
    if status == Bare::Same {
        return Some(("IntoComputed".to_owned(), None));
    }
    let krate: &'static str = match binding::binding_krate(nameable) {
        Some(krate) => krate,
        None => {
            return None;
        },
    };
    let path: String = text::cat(krate, "::signal::IntoComputed");
    if status == Bare::Free {
        let part: Option<(Span, String)> = binding::import_part(module, path.as_str());
        if part.is_some() {
            return Some(("IntoComputed".to_owned(), part));
        }
    }
    Some((path, None))
}

/// The names that the first `n` places bind, and whether they are `mut`; nothing
/// where a pattern is not a plain `name` or `mut name`.
pub open spec fn bound_names(hir: Hir, params: Seq<usize>, places: Seq<usize>, n: int) -> Option<
    Seq<(Seq<char>, bool)>,
>
    decreases n,
{
    if n <= 0 {
        Some(seq![])
    } else {
        match (
            bound_names(hir, params, places, n - 1),
            signature::param_at(hir, params, places[n - 1] as int),
        ) {
            (Some(rest), Some(pat)) => match hir.kind(pat) {
                Kind::Binding { name, id: _, sub: None } => if hir.node(pat).by_ref {
                    None
                } else {
                    Some(rest.push((name.name@, hir.node(pat).mutable)))
                },
                _ => None,
            },
            _ => None,
        }
    }
}

proof fn lemma_unnamed(hir: Hir, params: Seq<usize>, places: Seq<usize>, m: int, n: int)
    requires
        m <= n,
        bound_names(hir, params, places, m) is None,
    ensures
        bound_names(hir, params, places, n) is None,
    decreases n,
{
    if m < n && n > 0 {
        lemma_unnamed(hir, params, places, m, n - 1);
    }
}

/// The line that rebinds a name.
pub open spec fn rebinding(name: Seq<char>, mutable: bool) -> Seq<char> {
    (if mutable {
        "let mut "@
    } else {
        "let "@
    }) + name + " = "@ + name + ".into_computed();"@
}

/// The lines that rebind the names.
pub open spec fn rebindings(named: Seq<(Seq<char>, bool)>) -> Seq<Seq<char>> {
    named.map_values(|name: (Seq<char>, bool)| rebinding(name.0, name.1))
}

fn rebind_lines(hir: &Hir, params: &Vec<usize>, places: &Vec<usize>) -> (r: Option<Vec<String>>)
    requires
        hir.wf(),
        hir::all_below(params@, hir.nodes@.len() as int),
    ensures
        match r {
            Some(lines) => {
                &&& bound_names(*hir, params@, places@, places@.len() as int) is Some
                &&& text::texts(lines@) == rebindings(
                    bound_names(*hir, params@, places@, places@.len() as int)->0,
                )
            },
            None => bound_names(*hir, params@, places@, places@.len() as int) is None,
        },
{
    let mut out: Vec<String> = Vec::new();
    let mut i: usize = 0;
    proof {
        assert(text::texts(out@) =~= rebindings(seq![]));
    }
    while i < places.len()
        invariant
            i <= places.len(),
            hir.wf(),
            hir::all_below(params@, hir.nodes@.len() as int),
            bound_names(*hir, params@, places@, i as int) is Some,
            text::texts(out@) == rebindings(
                bound_names(*hir, params@, places@, i as int)->0,
            ),
        decreases places.len() - i,
    {
        let pat: usize = match signature::param_pat_at(hir, params, places[i]) {
            Some(pat) => pat,
            None => {
                proof {
                    lemma_unnamed(*hir, params@, places@, i + 1, places@.len() as int);
                }
                return None;
            },
        };
        let plain: bool = !hir.nodes[pat].by_ref;
        let mutable: bool = hir.nodes[pat].mutable;
        match &hir.nodes[pat].kind {
            Kind::Binding { name, sub: None, .. } => {
                if !plain {
                    proof {
                        lemma_unnamed(*hir, params@, places@, i + 1, places@.len() as int);
                    }
                    return None;
                }
                let ghost before = out@;
                let ghost names = bound_names(*hir, params@, places@, i as int)->0;
                let line: String = text::cat5(
                    if mutable {
                        "let mut "
                    } else {
                        "let "
                    },
                    name.name.as_str(),
                    " = ",
                    name.name.as_str(),
                    ".into_computed();",
                );
                out.push(line);
                proof {
                    assert(text::texts(out@) =~= text::texts(before).push(line@));
                    assert(rebindings(names.push((name.name@, mutable))) =~= rebindings(
                        names,
                    ).push(line@));
                }
            },
            _ => {
                proof {
                    lemma_unnamed(*hir, params@, places@, i + 1, places@.len() as int);
                }
                return None;
            },
        }
        i = i + 1;
    }
    Some(out)
}

/// The first thing in a block.
pub open spec fn first_in(stmts: Seq<usize>, tail: Option<usize>) -> Option<usize> {
    if stmts.len() > 0 {
        Some(stmts[0])
    } else {
        tail
    }
}

/// The indentation of a node's line.
pub open spec fn indent_of(hir: Hir, n: usize) -> Seq<char> {
    match hir.node(n).indent {
        Some(indent) => indent@,
        None => seq![],
    }
}

fn indentation(hir: &Hir, n: usize) -> (r: String)
    requires
        hir.has(n),
    ensures
        r@ == indent_of(*hir, n),
{
    match &hir.nodes[n].indent {
        Some(indent) => indent.clone(),
        None => {
            let none: String = String::new();
            proof {
                assert(none@ =~= seq![]);
            }
            none
        },
    }
}

/// Just inside a block's opening brace.
pub open spec fn inside(span: Span) -> Option<Span> {
    if span.lo < u32::MAX {
        Some(
            Span {
                lo: (span.lo + 1) as u32,
                hi: (span.lo + 1) as u32,
                ctxt: span.ctxt,
            },
        )
    } else {
        None
    }
}

/// Where the lines go in a body, and how they are set.
pub open spec fn lines_part(hir: Hir, body: usize, lines: Seq<Seq<char>>) -> Option<
    (Span, Seq<char>),
> {
    match hir.kind(body) {
        Kind::BlockExpr { block } => match hir.kind(block) {
            Kind::Block { stmts, tail } => if hir.node(block).span.expanded() {
                None
            } else {
                match first_in(stmts@, tail) {
                    Some(anchor) => if hir.node(anchor).span.expanded() {
                        None
                    } else {
                        let line_break = "\n"@ + indent_of(hir, anchor);
                        Some(
                            (
                                hir.node(anchor).span.start(),
                                text::joined(lines, line_break) + line_break,
                            ),
                        )
                    },
                    None => match inside(hir.node(block).span) {
                        Some(point) => {
                            let outer = "\n"@ + indent_of(hir, block);
                            let line_break = outer + "    "@;
                            Some(
                                (point, line_break + text::joined(lines, line_break) + outer),
                            )
                        },
                        None => None,
                    },
                }
            },
            _ => None,
        },
        _ => None,
    }
}

/// The part that inserts the rebinding lines as the first statements of the
/// body, each on a line of its own. In a block without a statement or a tail it
/// goes just inside the braces, so that comments inside survive.
pub fn let_part(hir: &Hir, body: usize, lines: &Vec<String>) -> (r: Option<(Span, String)>)
    requires
        hir.wf(),
        hir.has(body),
    ensures
        match r {
            Some((span, code)) => lines_part(*hir, body, text::texts(lines@)) == Some(
                (span, code@),
            ),
            None => lines_part(*hir, body, text::texts(lines@)) is None,
        },
{
    proof {
        assert(hir.node_wf(body));
    }
    let block: usize = match &hir.nodes[body].kind {
        Kind::BlockExpr { block } => *block,
        _ => {
            return None;
        },
    };
    proof {
        assert(hir.node_wf(block));
    }
    let anchor: Option<usize> = match &hir.nodes[block].kind {
        Kind::Block { stmts, tail } => if stmts.len() > 0 {
            Some(stmts[0])
        } else {
            *tail
        },
        _ => {
            return None;
        },
    };
    let span: Span = hir.nodes[block].span;
    if span.from_expansion() {
        return None;
    }
    match anchor {
        Some(anchor) => {
            if hir.nodes[anchor].span.from_expansion() {
                return None;
            }
            let line_break: String = text::cat("\n", indentation(hir, anchor).as_str());
            let lets: String = text::join(lines, line_break.as_str());
            Some(
                (
                    hir.nodes[anchor].span.shrink_to_lo(),
                    text::cat(lets.as_str(), line_break.as_str()),
                ),
            )
        },
        None => {
            if span.lo == u32::MAX {
                return None;
            }
            let outer: String = text::cat("\n", indentation(hir, block).as_str());
            let line_break: String = text::cat(outer.as_str(), "    ");
            let lets: String = text::join(lines, line_break.as_str());
            Some(
                (
                    Span { lo: span.lo + 1, hi: span.lo + 1, ctxt: span.ctxt },
                    text::cat3(line_break.as_str(), lets.as_str(), outer.as_str()),
                ),
            )
        },
    }
}

/// The body is a block that a macro wrote.
pub open spec fn macro_body(hir: Hir, body: usize) -> bool {
    match hir.kind(body) {
        Kind::BlockExpr { block } => hir.node(block).span.expanded(),
        _ => false,
    }
}

/// The new types at the first `n` places.
pub open spec fn type_edits(hir: Hir, f: Function, name: Seq<char>, places: Seq<usize>, n: int) -> Seq<
    (Span, Seq<char>),
>
    decreases n,
{
    if n <= 0 {
        seq![]
    } else {
        let place = places[n - 1] as int;
        let written = f.written@[place];
        type_edits(hir, f, name, places, n - 1).push(
            (
                hir.node(written).span,
                "impl "@ + name + "<"@ + value_text(hir, written, f.inputs@[place]) + ">"@,
            ),
        )
    }
}

/// The finding with the fix, where one can be spelled.
pub open spec fn with_fix(
    hir: Hir,
    f: Function,
    found: DiagnosticView,
    name: Seq<char>,
    import: Option<(Span, Seq<char>)>,
    places: Seq<usize>,
    body: Option<usize>,
    lines: Seq<Seq<char>>,
) -> DiagnosticView {
    let head = (match import {
        Some(part) => seq![part],
        None => seq![],
    }) + type_edits(hir, f, name, places, places.len() as int);
    let part = match body {
        Some(body) => lines_part(hir, body, lines),
        None => None,
    };
    let noted = if part is None && (body matches Some(body) && macro_body(hir, body)) {
        found.with(
            RemarkView::Note(
                "the body is macro-generated \u{2014} make the same change in the macro definition"@,
            ),
        )
    } else {
        found
    };
    noted.with(
        RemarkView::Multipart {
            label: "take `impl IntoComputed<T>` and erase inside with `.into_computed()`"@,
            parts: match part {
                Some(part) => head.push(part),
                None => head,
            },
            applicability: Applicability::MaybeIncorrect,
        },
    )
}

/// The lines that a function's body starts with.
pub open spec fn lines_in(hir: Hir, f: Function, places: Seq<usize>) -> Option<Seq<Seq<char>>> {
    let (params, body) = signature::params_and_body(hir, f.node);
    match body {
        Some(_) => match bound_names(hir, params, places, places.len() as int) {
            Some(named) => Some(rebindings(named)),
            None => None,
        },
        None => Some(seq![]),
    }
}

/// The places of a function's `Computed` parameters that are written by hand.
pub open spec fn flagged_places(hir: Hir, f: Function) -> Seq<usize> {
    let all = computed_places(hir, f);
    binding_parameter_by_value::written_places(hir, f.written@, all, all.len() as int)
}

/// What `IntoComputed` would mean in front of a function's first parameter that
/// is flagged.
pub open spec fn status_at(hir: Hir, module: Module, target: Option<usize>, f: Function) -> Bare {
    imports::bare_meaning(
        hir,
        module,
        f.node,
        hir.node(f.written@[flagged_places(hir, f)[0] as int]).span.lo,
        "IntoComputed"@,
        Namespace::Type,
        target,
    )
}

/// What is said of a function.
pub open spec fn report_of(
    hir: Hir,
    module: Module,
    nameable: Nameable,
    target: Option<usize>,
    f: Function,
    message: Seq<char>,
) -> Option<DiagnosticView> {
    let body = signature::params_and_body(hir, f.node).1;
    let places = flagged_places(hir, f);
    match lines_in(hir, f, places) {
        Some(lines) => if places.len() == 0 {
            None
        } else {
            let first = hir.node(f.written@[places[0] as int]).span;
            let found = DiagnosticView::bare(Lint::ComputedParameter, first, message);
            let fixed = match trait_spelling(
                module,
                nameable,
                status_at(hir, module, target, f),
            ) {
                Some((name, import)) => with_fix(hir, f, found, name, import, places, body, lines),
                None => found,
            };
            Some(
                if f.home == FnHome::TraitMember {
                    fixed.with(
                        RemarkView::Note(
                            "every implementor of this trait must make the same change"@,
                        ),
                    )
                } else {
                    fixed
                },
            )
        },
        None => None,
    }
}

fn push_type_edits(
    hir: &Hir,
    f: &Function,
    name: &str,
    places: &Vec<usize>,
    parts: &mut Vec<(Span, String)>,
)
    requires
        hir.wf(),
        f.fits(*hir),
        hir::all_below(places@, f.written@.len() as int),
        hir::all_below(places@, f.inputs@.len() as int),
    ensures
        diagnostics::part_views(final(parts)@) == diagnostics::part_views(old(parts)@)
            + type_edits(*hir, *f, name@, places@, places@.len() as int),
{
    let ghost before = diagnostics::part_views(parts@);
    let mut i: usize = 0;
    proof {
        assert(before =~= before + type_edits(*hir, *f, name@, places@, 0));
    }
    while i < places.len()
        invariant
            i <= places.len(),
            hir.wf(),
            f.fits(*hir),
            hir::all_below(places@, f.written@.len() as int),
            hir::all_below(places@, f.inputs@.len() as int),
            diagnostics::part_views(parts@) == before + type_edits(
                *hir,
                *f,
                name@,
                places@,
                i as int,
            ),
        decreases places.len() - i,
    {
        let ghost prior = diagnostics::part_views(parts@);
        let place: usize = places[i];
        let written: usize = f.written[place];
        let value: String = inner_text(hir, written, f.inputs[place]);
        let code: String = text::cat5("impl ", name, "<", value.as_str(), ">");
        let ghost part = (hir.node(written).span, code@);
        diagnostics::push_part(parts, hir.nodes[written].span, code);
        proof {
            assert(prior.push(part) =~= before + type_edits(
                *hir,
                *f,
                name@,
                places@,
                i as int,
            ).push(part));
        }
        i = i + 1;
    }
}

fn is_macro_body(hir: &Hir, body: usize) -> (r: bool)
    requires
        hir.wf(),
        hir.has(body),
    ensures
        r == macro_body(*hir, body),
{
    proof {
        assert(hir.node_wf(body));
    }
    match &hir.nodes[body].kind {
        Kind::BlockExpr { block } => hir.nodes[*block].span.from_expansion(),
        _ => false,
    }
}

fn attach_fix(
    hir: &Hir,
    f: &Function,
    found: &mut Diagnostic,
    name: &str,
    import: Option<(Span, String)>,
    places: &Vec<usize>,
    body: Option<usize>,
    lines: &Vec<String>,
)
    requires
        hir.wf(),
        f.fits(*hir),
        hir::all_below(places@, f.written@.len() as int),
        hir::all_below(places@, f.inputs@.len() as int),
        hir::opt_below(body, hir.nodes@.len() as int),
    ensures
        final(found)@ == with_fix(
            *hir,
            *f,
            old(found)@,
            name@,
            diagnostics::part_opt(import),
            places@,
            body,
            text::texts(lines@),
        ),
{
    let mut parts: Vec<(Span, String)> = Vec::new();
    proof {
        assert(diagnostics::part_views(parts@) =~= seq![]);
    }
    if let Some((span, code)) = import {
        let ghost part = (span, code@);
        diagnostics::push_part(&mut parts, span, code);
        proof {
            assert(diagnostics::part_views(parts@) =~= seq![part]);
        }
    }
    push_type_edits(hir, f, name, places, &mut parts);
    if let Some(body) = body {
        match let_part(hir, body, lines) {
            Some((span, code)) => {
                diagnostics::push_part(&mut parts, span, code);
            },
            None => {
                if is_macro_body(hir, body) {
                    found.note(
                        "the body is macro-generated \u{2014} make the same change in the macro definition".to_owned(),
                    );
                }
            },
        }
    }
    found.multipart_suggestion(
        "take `impl IntoComputed<T>` and erase inside with `.into_computed()`",
        parts,
        Applicability::MaybeIncorrect,
    );
}

fn report(
    hir: &Hir,
    module: &Module,
    nameable: Nameable,
    target: Option<usize>,
    f: &Function,
    message: &str,
) -> (r: Option<Diagnostic>)
    requires
        hir.wf(),
        f.fits(*hir),
    ensures
        diagnostics::found(r) == report_of(*hir, *module, nameable, target, *f, message@),
{
    let (params, body) = signature::signature_of(hir, f.node);
    let all: Vec<usize> = computed_params(hir, f);
    let places: Vec<usize> = binding_parameter_by_value::hand_written(hir, &f.written, &all);
    proof {
        lemma_written_below(*hir, f.written@, all@, all@.len() as int, f.inputs@.len() as int);
    }
    if places.len() == 0 {
        return None;
    }
    let lines: Vec<String> = match body {
        Some(_) => match rebind_lines(hir, &params, &places) {
            Some(lines) => lines,
            None => {
                return None;
            },
        },
        None => {
            let none: Vec<String> = Vec::new();
            proof {
                assert(text::texts(none@) =~= seq![]);
            }
            none
        },
    };
    let first: Span = hir.nodes[f.written[places[0]]].span;
    let mut found: Diagnostic = Diagnostic::bare(Lint::ComputedParameter, first, message);
    let status: Bare = imports::bare_status(
        hir,
        module,
        f.node,
        &Query { pos: first.lo, name: "IntoComputed", ns: Namespace::Type, target },
    );
    if let Some((name, import)) = into_computed_spelling(module, nameable, status) {
        attach_fix(hir, f, &mut found, name.as_str(), import, &places, body, &lines);
    }
    if f.home == FnHome::TraitMember {
        found.note("every implementor of this trait must make the same change".to_owned());
    }
    Some(found)
}

proof fn lemma_written_below(hir: Hir, written: Seq<usize>, places: Seq<usize>, n: int, m: int)
    requires
        hir::all_below(places, m),
        n <= places.len(),
    ensures
        hir::all_below(binding_parameter_by_value::written_places(hir, written, places, n), m),
    decreases n,
{
    if n > 0 {
        lemma_written_below(hir, written, places, n - 1, m);
        assert(places[n - 1] < m);
    }
}

/// How many of the first `n` erasing call sites are for `def`.
pub open spec fn count_for(erasing: Seq<usize>, def: usize, n: int) -> nat
    decreases n,
{
    if n <= 0 {
        0
    } else {
        count_for(erasing, def, n - 1) + (if erasing[n - 1] == def {
            1nat
        } else {
            0
        })
    }
}

/// The functions with a `Computed` parameter, in the order in which they are
/// visited, and the call sites that erase a signal for one.
#[derive(Debug)]
pub struct ComputedParameter {
    /// The functions, by place in the list of the crate's functions.
    pub sigs: Vec<usize>,
    /// For each such call site the function that it calls.
    pub erasing: Vec<usize>,
}

/// The message for a function, where it is reported.
pub open spec fn message_for(f: Function, count: nat) -> Option<Seq<char>> {
    if f.is_public() {
        Some("a public function takes `Computed<T>` where callers would pass any signal"@)
    } else if count >= 2 {
        Some(
            text::decimal(count)
                + " call sites erase a signal into `Computed<T>` for this function"@,
        )
    } else {
        None
    }
}

/// What is said of one of the functions.
pub open spec fn finding_for(
    hir: Hir,
    module: Module,
    nameable: Nameable,
    target: Option<usize>,
    f: Function,
    erasing: Seq<usize>,
) -> Option<DiagnosticView> {
    match message_for(f, count_for(erasing, f.def, erasing.len() as int)) {
        Some(message) => report_of(hir, module, nameable, target, f, message),
        None => None,
    }
}

/// What is said of the first `n` functions.
pub open spec fn reports(
    hir: Hir,
    modules: Seq<Module>,
    nameable: Nameable,
    target: Option<usize>,
    fns: Seq<Function>,
    sigs: Seq<usize>,
    erasing: Seq<usize>,
    n: int,
) -> Seq<DiagnosticView>
    decreases n,
{
    if n <= 0 {
        seq![]
    } else {
        let i = sigs[n - 1] as int;
        reports(hir, modules, nameable, target, fns, sigs, erasing, n - 1)
            + diagnostics::found_seq(
            finding_for(hir, modules[i], nameable, target, fns[i], erasing),
        )
    }
}

impl ComputedParameter {
    /// What was recorded is in range, and only functions whose signatures can be
    /// changed were.
    pub open spec fn fits(self, fns: Seq<Function>) -> bool {
        &&& hir::all_below(self.sigs@, fns.len() as int)
        &&& forall|k: int|
            0 <= k < self.sigs@.len() ==> fns[#[trigger] self.sigs@[k] as int].changeable()
    }

    /// Nothing recorded.
    pub fn new() -> (r: ComputedParameter)
        ensures
            r.sigs@.len() == 0,
            r.erasing@.len() == 0,
            forall|fns: Seq<Function>| r.fits(fns),
    {
        ComputedParameter { sigs: Vec::new(), erasing: Vec::new() }
    }

    /// Records the function where its signature can be changed and takes a
    /// `Computed`.
    pub fn check_fn(&mut self, hir: &Hir, fns: &Vec<Function>, i: usize)
        requires
            hir.wf(),
            old(self).fits(fns@),
            i < fns.len(),
            fns[i as int].fits(*hir),
        ensures
            final(self).fits(fns@),
            final(self).erasing == old(self).erasing,
            final(self).sigs@ == (if fns[i as int].changeable() && computed_places(
                *hir,
                fns[i as int],
            ).len() > 0 {
                old(self).sigs@.push(i)
            } else {
                old(self).sigs@
            }),
    {
        if fns[i].collectable() && computed_params(hir, &fns[i]).len() > 0 {
            self.sigs.push(i);
        }
    }

    /// Records a call of one of the crate's functions whose argument at a
    /// `Computed` parameter's position is an expression rather than a place.
    pub fn check_expr(&mut self, hir: &Hir, fns: &Vec<Function>, n: usize)
        requires
            hir.wf(),
            hir.has(n),
            signature::all_fit(*hir, fns@),
            old(self).fits(fns@),
        ensures
            final(self).fits(fns@),
            final(self).sigs == old(self).sigs,
            final(self).erasing@ == (match erased_for(*hir, fns@, n) {
                Some(def) => old(self).erasing@.push(def),
                None => old(self).erasing@,
            }),
    {
        if let Some(i) = signature::called_function(hir, fns, n) {
            let places: Vec<usize> = computed_params(hir, &fns[i]);
            let args: Vec<usize> = hir.call_args(n);
            if is_erasing(hir, &args, &places) {
                self.erasing.push(fns[i].def);
            }
        }
    }

    fn erasing_for(&self, def: usize) -> (r: u64)
        ensures
            r == count_for(self.erasing@, def, self.erasing@.len() as int),
    {
        let mut count: u64 = 0;
        let mut i: usize = 0;
        while i < self.erasing.len()
            invariant
                i <= self.erasing.len(),
                count <= i,
                count == count_for(self.erasing@, def, i as int),
            decreases self.erasing.len() - i,
        {
            if self.erasing[i] == def {
                count = count + 1;
            }
            i = i + 1;
        }
        count
    }

    /// Reports the public functions, and the private ones whose callers already
    /// erase a signal into `Computed` at more than one call site. `modules` holds
    /// the module that each function lies in, `target` is the `IntoComputed`
    /// trait.
    pub fn check_crate_post(
        &self,
        hir: &Hir,
        modules: &Vec<Module>,
        nameable: Nameable,
        target: Option<usize>,
        fns: &Vec<Function>,
    ) -> (r: Vec<Diagnostic>)
        requires
            hir.wf(),
            signature::all_fit(*hir, fns@),
            modules.len() == fns.len(),
            self.fits(fns@),
        ensures
            diagnostics::found_all(r@) == reports(
                *hir,
                modules@,
                nameable,
                target,
                fns@,
                self.sigs@,
                self.erasing@,
                self.sigs@.len() as int,
            ),
    {
        let mut out: Vec<Diagnostic> = Vec::new();
        let mut i: usize = 0;
        proof {
            assert(diagnostics::found_all(out@) =~= seq![]);
        }
        while i < self.sigs.len()
            invariant
                i <= self.sigs.len(),
                hir.wf(),
                signature::all_fit(*hir, fns@),
                modules.len() == fns.len(),
                self.fits(fns@),
                diagnostics::found_all(out@) == reports(
                    *hir,
                    modules@,
                    nameable,
                    target,
                    fns@,
                    self.sigs@,
                    self.erasing@,
                    i as int,
                ),
            decreases self.sigs.len() - i,
        {
            let k: usize = self.sigs[i];
            let f: &Function = &fns[k];
            let count: u64 = self.erasing_for(f.def);
            let finding: Option<Diagnostic> = if f.public_signature() {
                report(
                    hir,
                    &modules[k],
                    nameable,
                    target,
                    f,
                    "a public function takes `Computed<T>` where callers would pass any signal",
                )
            } else if count >= 2 {
                let digits: String = text::to_decimal(count);
                let message: String = text::cat(
                    digits.as_str(),
                    " call sites erase a signal into `Computed<T>` for this function",
                );
                report(hir, &modules[k], nameable, target, f, message.as_str())
            } else {
                None
            };
            diagnostics::push_found(&mut out, finding);
            i = i + 1;
        }
        out
    }
}

/// The type is `Computed<T>` or a reference to one.
pub open spec fn is_computed(hir: Hir, t: usize) -> bool {
    ||| !(hir.ty(t).kind is Ref) && hir.ty_arg(t, Known::Computed, 0) is Some
    ||| hir.ty(t).kind matches TyKind::Ref { inner, mutable: _ } && hir.ty_arg(
        inner,
        Known::Computed,
        0,
    ) is Some
}

proof fn lemma_computed_inputs(hir: Hir, inputs: Seq<usize>, n: int, i: usize)
    requires
        0 <= n <= inputs.len() <= usize::MAX,
    ensures
        computed_inputs(hir, inputs, n).contains(i) <==> i < n && is_computed(hir, inputs[i as int]),
    decreases n,
{
    if n > 0 {
        lemma_computed_inputs(hir, inputs, n - 1, i);
        let all = computed_inputs(hir, inputs, n);
        let rest = computed_inputs(hir, inputs, n - 1);
        if all.contains(i) {
            let k = choose|k: int| 0 <= k < all.len() && all[k] == i;
            if k < rest.len() {
                assert(rest[k] == i);
            }
        }
        if i < n && is_computed(hir, inputs[i as int]) {
            if i < n - 1 {
                let k = choose|k: int| 0 <= k < rest.len() && rest[k] == i;
                assert(all[k] == i);
            } else {
                assert(all[rest.len() as int] == i);
            }
        }
    }
}

/// The parameters that are looked at are exactly those that take `Computed<T>`, by
/// value or by reference.
pub proof fn computed_parameters_are_found(hir: Hir, f: Function, i: usize)
    ensures
        computed_places(hir, f).contains(i) <==> i < f.inputs@.len() && is_computed(
            hir,
            f.inputs@[i as int],
        ),
{
    assert(f.inputs.len() == f.inputs@.len());
    lemma_computed_inputs(hir, f.inputs@, f.inputs@.len() as int, i);
}

proof fn lemma_count_for(erasing: Seq<usize>, def: usize, n: int)
    requires
        0 <= n <= erasing.len(),
    ensures
        count_for(erasing, def, n) > 0 ==> exists|i: int| 0 <= i < n && #[trigger] erasing[i] == def,
        count_for(erasing, def, n) > 1 ==> exists|i: int, j: int|
            0 <= i < j < n && #[trigger] erasing[i] == def && #[trigger] erasing[j] == def,
        forall|i: int, j: int|
            0 <= i < j < n && #[trigger] erasing[i] == def && #[trigger] erasing[j] == def
                ==> count_for(erasing, def, n) > 1,
        forall|i: int|
            0 <= i < n && #[trigger] erasing[i] == def ==> count_for(erasing, def, n) > 0,
    decreases n,
{
    if n > 0 {
        lemma_count_for(erasing, def, n - 1);
        assert(erasing[n - 1] == erasing[n - 1]);
    }
}

/// A function that others cannot see is reported exactly where two call sites or
/// more erase a signal for it; one that they can see needs none.
pub proof fn private_functions_need_two_erasing_calls(f: Function, erasing: Seq<usize>)
    ensures
        message_for(f, count_for(erasing, f.def, erasing.len() as int)) is Some <==> f.is_public()
            || exists|i: int, j: int|
            0 <= i < j < erasing.len() && #[trigger] erasing[i] == f.def && #[trigger] erasing[j]
                == f.def,
{
    lemma_count_for(erasing, f.def, erasing.len() as int);
}

proof fn lemma_type_edits(
    hir: Hir,
    f: Function,
    name: Seq<char>,
    places: Seq<usize>,
    n: int,
    k: int,
)
    requires
        0 <= k < n <= places.len(),
    ensures
        type_edits(hir, f, name, places, n).len() == n,
        type_edits(hir, f, name, places, n)[k] == (
            hir.node(f.written@[places[k] as int]).span,
            "impl "@ + name + "<"@ + value_text(
                hir,
                f.written@[places[k] as int],
                f.inputs@[places[k] as int],
            ) + ">"@,
        ),
    decreases n,
{
    if n > 1 {
        if k < n - 1 {
            lemma_type_edits(hir, f, name, places, n - 1, k);
        } else {
            lemma_type_edits(hir, f, name, places, n - 1, 0);
        }
    } else {
        assert(type_edits(hir, f, name, places, 0) =~= seq![]);
    }
}

/// The fix gives each flagged parameter, at its own written type, the bound over
/// the value that its `Computed` held, as that was written.
pub proof fn fixed_parameters_keep_their_value(
    hir: Hir,
    f: Function,
    name: Seq<char>,
    places: Seq<usize>,
    k: int,
    arg: usize,
    text: Seq<char>,
)
    requires
        0 <= k < places.len(),
        ({
            let ty = f.written@[places[k] as int];
            let ty = match hir.kind(ty) {
                Kind::RefTy { inner } => inner,
                _ => ty,
            };
            &&& hir.kind(ty) matches Kind::PathTy { res: Res::Def { def, kind: _ } }
            &&& hir.is_def(def, Known::Computed)
            &&& hir.node(ty).qself is None
            &&& hir.node(ty).path_args matches Some(args)
            &&& args.types@.len() > 0
            &&& args.types@[0] == arg
            &&& hir.source(arg) == Some(text)
        }),
    ensures
        type_edits(hir, f, name, places, places.len() as int)[k] == (
            hir.node(f.written@[places[k] as int]).span,
            "impl "@ + name + "<"@ + text + ">"@,
        ),
{
    lemma_type_edits(hir, f, name, places, places.len() as int, k);
}

/// Inside, each of those parameters is erased again under its own name, in order,
/// and stays mutable where it was.
pub proof fn fixed_bodies_erase_each_parameter(named: Seq<(Seq<char>, bool)>, k: int)
    requires
        0 <= k < named.len(),
    ensures
        rebindings(named).len() == named.len(),
        rebindings(named)[k] == (if named[k].1 {
            "let mut "@
        } else {
            "let "@
        }) + named[k].0 + " = "@ + named[k].0 + ".into_computed();"@,
{
}

/// A name, a field or a place in a collection is handed over as it is, behind
/// borrows and clones too; a call or a method on it makes a new value, which is
/// where a signal is erased.
pub proof fn named_values_are_no_erasures(hir: Hir, n: usize, inner: usize)
    ensures
        hir.local(n) is Some ==> names_place(hir, n),
        hir.kind(n) matches Kind::AddrOf { mutable: _, raw: _, operand } ==> (operand < n
            ==> names_place(hir, n) == names_place(hir, operand)),
        hir.kind(n) matches Kind::Field { base, name: _ } ==> (base < n ==> names_place(hir, n)
            == names_place(hir, base)),
        hir.is_call(n) && !hir.calls_item(n, Known::Clone) ==> !names_place(hir, n),
        hir.calls_item(n, Known::Clone) && hir.first_operand(n) == Some(inner) && inner < n
            ==> names_place(hir, n) == names_place(hir, inner),
        hir.kind(n) is Lit || hir.kind(n) is Closure || hir.kind(n) is Binary ==> !names_place(
            hir,
            n,
        ),
{
}

/// A call erases for a function exactly where one of the operands that the
/// function takes as `Computed<T>` is no such name.
pub proof fn erasing_calls_are_found(hir: Hir, fns: Seq<Function>, n: usize, i: int)
    requires
        signature::called(hir, fns, n) == Some(i),
    ensures
        erased_for(hir, fns, n) is Some <==> exists|k: int|
            0 <= k < computed_places(hir, fns[i]).len() && (#[trigger] computed_places(
                hir,
                fns[i],
            )[k]) < hir.operands(n).len() && !names_place(
                hir,
                hir.operands(n)[computed_places(hir, fns[i])[k] as int],
            ),
        erased_for(hir, fns, n) matches Some(def) ==> def == fns[i].def,
{
}

/// The bound is spelled so that it reaches the trait: by the bare name only where
/// that means the trait or an import is added, and else by the path through a
/// crate at hand.
pub proof fn spelled_bounds_reach_the_trait(module: Module, nameable: Nameable, status: Bare)
    ensures
        status == Bare::Same ==> trait_spelling(module, nameable, status) == Some(
            ("IntoComputed"@, None::<(Span, Seq<char>)>),
        ),
        status != Bare::Same && !nameable.waterui && !nameable.nami ==> trait_spelling(
            module,
            nameable,
            status,
        ) is None,
        trait_spelling(module, nameable, status) matches Some(spelled) ==> {
            &&& spelled.1 is Some ==> status == Bare::Free && spelled.0 == "IntoComputed"@
            &&& spelled.1 is None && status != Bare::Same ==> spelled.0 == (if nameable.waterui {
                "waterui::signal::IntoComputed"@
            } else {
                "nami::signal::IntoComputed"@
            })
        },
{
    reveal_strlit("waterui");
    reveal_strlit("nami");
    reveal_strlit("::signal::IntoComputed");
    reveal_strlit("waterui::signal::IntoComputed");
    reveal_strlit("nami::signal::IntoComputed");
    assert("waterui"@ + "::signal::IntoComputed"@ =~= "waterui::signal::IntoComputed"@);
    assert("nami"@ + "::signal::IntoComputed"@ =~= "nami::signal::IntoComputed"@);
}

/// The lines go in front of the first statement of the body, each on a line of
/// its own with the statement's indentation.
pub proof fn lines_go_in_front_of_the_body(
    hir: Hir,
    body: usize,
    block: usize,
    anchor: usize,
    line: Seq<char>,
)
    requires
        hir.kind(body) == (Kind::BlockExpr { block }),
        hir.kind(block) matches Kind::Block { stmts, tail } && (stmts@.len() > 0 && stmts@[0]
            == anchor || stmts@.len() == 0 && tail == Some(anchor)),
    ensures
        lines_part(hir, body, seq![line]) matches Some(part) ==> part.0 == hir.node(
            anchor,
        ).span.start() && part.1 == line + "\n"@ + indent_of(hir, anchor),
        !hir.node(block).span.expanded() && !hir.node(anchor).span.expanded() ==> lines_part(
            hir,
            body,
            seq![line],
        ) is Some,
{
    let line_break = "\n"@ + indent_of(hir, anchor);
    assert(text::joined(seq![line], line_break) == line);
    assert(line + line_break =~= line + "\n"@ + indent_of(hir, anchor));
}

} // verus!
