//! `handler_captures_binding`: a handler that captures a reactive handle instead
//! of taking it as `State<T>`.

use crate::diagnostics;
use crate::diagnostics::{Diagnostic, DiagnosticView, RemarkView};
use crate::hir;
use crate::hir::{CapturedVar, Hir, Kind, Span, TyKind};
use crate::known::Known;
use crate::lint::Lint;
use crate::manual_list_mutation;
use crate::text;
use vstd::prelude::*;

verus! {

/// What the reactive handle that a struct is is called.
pub open spec fn handle_of(hir: Hir, def: usize) -> Option<Seq<char>> {
    if hir.is_def(def, Known::Binding) {
        Some("Binding"@)
    } else if hir.is_def(def, Known::Computed) {
        Some("Computed"@)
    } else if hir.is_def(def, Known::ListTy) {
        Some("ReactiveList"@)
    } else {
        None
    }
}

/// What the reactive handle of a type is called, references aside.
pub open spec fn handle_in(hir: Hir, t: usize) -> Option<Seq<char>> {
    match hir.ty(hir.referent(t)).kind {
        TyKind::Adt { def, args: _ } => handle_of(hir, def),
        _ => None,
    }
}

/// The name of the reactive-handle type that a handler must not capture,
/// references peeled; nothing for any other type.
pub fn handle_name(hir: &Hir, t: usize) -> (r: Option<&'static str>)
    requires
        hir.wf(),
        t < hir.types.len(),
    ensures
        match r {
            Some(name) => handle_in(*hir, t) == Some(name@),
            None => handle_in(*hir, t) is None,
        },
{
    let inner: usize = hir.peel_refs(t);
    match &hir.types[inner].kind {
        TyKind::Adt { def, .. } => if hir.def_path_eq(*def, Known::Binding) {
            Some("Binding")
        } else if hir.def_path_eq(*def, Known::Computed) {
            Some("Computed")
        } else if hir.def_path_eq(*def, Known::ListTy) {
            Some("ReactiveList")
        } else {
            None
        },
        _ => None,
    }
}

/// The closure that an argument evaluates to, and the blocks around it.
pub open spec fn wrapped_closure(hir: Hir, n: usize) -> Option<(usize, Seq<usize>)>
    decreases n,
{
    match hir.kind(n) {
        Kind::DropTemps { inner } => if inner < n {
            wrapped_closure(hir, inner)
        } else {
            None
        },
        Kind::BlockExpr { block } => match hir.block_tail(block) {
            Some(tail) => if tail < n {
                match wrapped_closure(hir, tail) {
                    Some((closure, blocks)) => Some((closure, seq![block] + blocks)),
                    None => None,
                }
            } else {
                None
            },
            None => None,
        },
        Kind::Closure { .. } => Some((n, seq![])),
        _ => None,
    }
}

/// The closure the argument evaluates to; every peeled block wrapper is added to
/// `blocks`, outermost first: the clone-then-move idiom's `let x = x.clone()`
/// lines live in those blocks' statements.
fn closure_and_wrapper(hir: &Hir, n: usize, blocks: &mut Vec<usize>) -> (r: Option<usize>)
    requires
        hir.wf(),
        hir.has(n),
        hir::all_below(old(blocks)@, hir.nodes@.len() as int),
    ensures
        hir::all_below(final(blocks)@, hir.nodes@.len() as int),
        match r {
            Some(closure) => wrapped_closure(*hir, n) matches Some((found, wrapper)) && found
                == closure && final(blocks)@ == old(blocks)@ + wrapper && hir.has(closure),
            None => wrapped_closure(*hir, n) is None,
        },
    decreases n,
{
    proof {
        assert(hir.node_wf(n));
    }
    match &hir.nodes[n].kind {
        Kind::DropTemps { inner } => closure_and_wrapper(hir, *inner, blocks),
        Kind::BlockExpr { block } => {
            proof {
                assert(hir.node_wf(*block));
            }
            match &hir.nodes[*block].kind {
                Kind::Block { tail: Some(tail), .. } => {
                    let ghost before = blocks@;
                    blocks.push(*block);
                    let r: Option<usize> = closure_and_wrapper(hir, *tail, blocks);
                    proof {
                        if let Some((found, wrapper)) = wrapped_closure(*hir, *tail) {
                            assert(before.push(*block) + wrapper =~= before + (seq![*block]
                                + wrapper));
                        }
                    }
                    r
                },
                _ => None,
            }
        },
        Kind::Closure { .. } => {
            proof {
                assert(blocks@ =~= blocks@ + seq![]);
            }
            Some(n)
        },
        _ => None,
    }
}

/// The binding and the initializer of a `let` that binds the name at `span`.
pub open spec fn let_at(hir: Hir, stmt: usize, span: Span) -> Option<(usize, Option<usize>)> {
    match hir.kind(stmt) {
        Kind::LetDecl { local } => match hir.kind(local) {
            Kind::LetStmt { pat, ty: _, init, els: _ } => match hir.kind(pat) {
                Kind::Binding { name, id, sub: _ } => if name.span == span {
                    Some((id, init))
                } else {
                    None
                },
                _ => None,
            },
            _ => None,
        },
        _ => None,
    }
}

fn let_binding(hir: &Hir, stmt: usize, span: Span) -> (r: Option<(usize, Option<usize>)>)
    requires
        hir.wf(),
        hir.has(stmt),
    ensures
        r == let_at(*hir, stmt, span),
        r matches Some((_, init)) ==> hir::opt_below(init, hir.nodes@.len() as int),
{
    proof {
        assert(hir.node_wf(stmt));
    }
    match &hir.nodes[stmt].kind {
        Kind::LetDecl { local } => {
            proof {
                assert(hir.node_wf(*local));
            }
            match &hir.nodes[*local].kind {
                Kind::LetStmt { pat, init, .. } => match &hir.nodes[*pat].kind {
                    Kind::Binding { name, id, .. } => if name.span == span {
                        Some((*id, *init))
                    } else {
                        None
                    },
                    _ => None,
                },
                _ => None,
            }
        },
        _ => None,
    }
}

/// The first of the statements from `j` on that binds the name at `span`.
pub open spec fn binding_stmt(hir: Hir, stmts: Seq<usize>, span: Span, j: int) -> Option<int>
    decreases stmts.len() - j,
{
    if j < 0 || j >= stmts.len() {
        None
    } else if let_at(hir, stmts[j], span) is Some {
        Some(j)
    } else {
        binding_stmt(hir, stmts, span, j + 1)
    }
}

/// The statements of a block.
pub open spec fn stmts_of(hir: Hir, block: usize) -> Seq<usize> {
    match hir.kind(block) {
        Kind::Block { stmts, tail: _ } => stmts@,
        _ => seq![],
    }
}

/// A statement of the blocks from `i` on reads the local.
pub open spec fn read_inside(hir: Hir, blocks: Seq<usize>, local: usize, i: int) -> bool {
    exists|k: int|
        i <= k < blocks.len() && 0 <= k && manual_list_mutation::used_from(
            hir,
            stmts_of(hir, #[trigger] blocks[k]),
            None,
            0,
            local,
        )
}

/// Statement `j` of block `i` is there for the capture alone: a clone that
/// nothing else in the wrapper reads.
pub open spec fn only_captured(hir: Hir, blocks: Seq<usize>, i: int, j: int, span: Span) -> bool {
    let stmts = stmts_of(hir, blocks[i]);
    match let_at(hir, stmts[j], span) {
        Some((id, Some(init))) => {
            &&& hir.resolves_item(init, Known::Clone)
            &&& !manual_list_mutation::used_from(hir, stmts, None, j + 1, id)
            &&& !read_inside(hir, blocks, id, i + 1)
        },
        _ => false,
    }
}

/// The `let` that clones the variable at `span`, searched from block `i` inward.
pub open spec fn clone_let_from(hir: Hir, blocks: Seq<usize>, span: Span, i: int) -> Option<Span>
    decreases blocks.len() - i,
{
    if i < 0 || i >= blocks.len() {
        None
    } else {
        let stmts = stmts_of(hir, blocks[i]);
        match binding_stmt(hir, stmts, span, 0) {
            Some(j) => if only_captured(hir, blocks, i, j, span) {
                Some(hir.node(stmts[j]).span)
            } else {
                None
            },
            None => clone_let_from(hir, blocks, span, i + 1),
        }
    }
}

fn find_binding_stmt(hir: &Hir, stmts: &Vec<usize>, span: Span) -> (r: Option<usize>)
    requires
        hir.wf(),
        hir::all_below(stmts@, hir.nodes@.len() as int),
    ensures
        match r {
            Some(j) => binding_stmt(*hir, stmts@, span, 0) == Some(j as int) && j < stmts.len(),
            None => binding_stmt(*hir, stmts@, span, 0) is None,
        },
{
    let mut j: usize = 0;
    while j < stmts.len()
        invariant
            j <= stmts.len(),
            hir.wf(),
            hir::all_below(stmts@, hir.nodes@.len() as int),
            binding_stmt(*hir, stmts@, span, 0) == binding_stmt(*hir, stmts@, span, j as int),
        decreases stmts.len() - j,
    {
        if let_binding(hir, stmts[j], span).is_some() {
            return Some(j);
        }
        j = j + 1;
    }
    None
}

fn is_read_inside(hir: &Hir, blocks: &Vec<usize>, local: usize, from: usize) -> (r: bool)
    requires
        hir.wf(),
        hir::all_below(blocks@, hir.nodes@.len() as int),
    ensures
        r == read_inside(*hir, blocks@, local, from as int),
{
    let mut i: usize = from;
    while i < blocks.len()
        invariant
            from <= i,
            hir.wf(),
            hir::all_below(blocks@, hir.nodes@.len() as int),
            forall|k: int|
                from <= k < i && k < blocks.len() ==> !manual_list_mutation::used_from(
                    *hir,
                    stmts_of(*hir, #[trigger] blocks@[k]),
                    None,
                    0,
                    local,
                ),
        decreases blocks.len() - i,
    {
        let block: usize = blocks[i];
        proof {
            assert(hir.node_wf(block));
        }
        let used: bool = match &hir.nodes[block].kind {
            Kind::Block { stmts, .. } => manual_list_mutation::is_used_from(hir, stmts, None, 0, local),
            _ => false,
        };
        if used {
            assert(manual_list_mutation::used_from(
                *hir,
                stmts_of(*hir, blocks@[i as int]),
                None,
                0,
                local,
            ));
            return true;
        }
        i = i + 1;
    }
    false
}

fn check_clone_let(hir: &Hir, blocks: &Vec<usize>, i: usize, stmts: &Vec<usize>, j: usize, span: Span) -> (r:
    bool)
    requires
        hir.wf(),
        hir::all_below(blocks@, hir.nodes@.len() as int),
        i < blocks.len(),
        stmts@ == stmts_of(*hir, blocks@[i as int]),
        hir::all_below(stmts@, hir.nodes@.len() as int),
        j < stmts.len(),
    ensures
        r == only_captured(*hir, blocks@, i as int, j as int, span),
{
    match let_binding(hir, stmts[j], span) {
        Some((id, Some(init))) => hir.resolves_of(init, Known::Clone) && !manual_list_mutation::is_used_from(
            hir,
            stmts,
            None,
            j + 1,
            id,
        ) && !is_read_inside(hir, blocks, id, i + 1),
        _ => false,
    }
}

/// The span of the `let <ident> = ….clone()` statement in the peeled wrapper
/// blocks that binds the variable at `span`: the clone-then-move idiom's
/// per-handle line, searched outermost-in. Nothing when no block binds it through
/// a `Clone::clone` call, or when the clone binding is read anywhere else in the
/// wrapper (the `let` is then not only for the capture).
pub fn clone_let_span(hir: &Hir, blocks: &Vec<usize>, span: Span) -> (r: Option<Span>)
    requires
        hir.wf(),
        hir::all_below(blocks@, hir.nodes@.len() as int),
    ensures
        r == clone_let_from(*hir, blocks@, span, 0),
{
    let mut i: usize = 0;
    while i < blocks.len()
        invariant
            i <= blocks.len(),
            hir.wf(),
            hir::all_below(blocks@, hir.nodes@.len() as int),
            clone_let_from(*hir, blocks@, span, 0) == clone_let_from(
                *hir,
                blocks@,
                span,
                i as int,
            ),
        decreases blocks.len() - i,
    {
        let block: usize = blocks[i];
        proof {
            assert(hir.node_wf(block));
        }
        if let Kind::Block { stmts, .. } = &hir.nodes[block].kind {
            if let Some(j) = find_binding_stmt(hir, stmts, span) {
                return if check_clone_let(hir, blocks, i, stmts, j, span) {
                    Some(hir.nodes[stmts[j]].span)
                } else {
                    None
                };
            }
        }
        i = i + 1;
    }
    None
}

/// A reactive handle that a closure captures.
#[derive(Debug)]
pub struct HandleCapture {
    /// Where the captured variable is bound.
    pub var_span: Span,
    pub name: String,
    /// What the handle's type is called.
    pub handle: &'static str,
    /// The `let` line that clones it for the capture, when the handler argument
    /// is spelled as the clone-then-move block.
    pub clone_let: Option<Span>,
}

/// What a capture says.
pub ghost struct CaptureView {
    pub var_span: Span,
    pub name: Seq<char>,
    pub handle: Seq<char>,
    pub clone_let: Option<Span>,
}

impl View for HandleCapture {
    type V = CaptureView;

    open spec fn view(&self) -> CaptureView {
        CaptureView {
            var_span: self.var_span,
            name: self.name@,
            handle: self.handle@,
            clone_let: self.clone_let,
        }
    }
}

pub open spec fn capture_views(captures: Seq<HandleCapture>) -> Seq<CaptureView> {
    captures.map_values(|capture: HandleCapture| capture@)
}

/// The variable is among the captures already.
pub open spec fn listed(captures: Seq<CaptureView>, var: CapturedVar) -> bool {
    exists|i: int|
        0 <= i < captures.len() && (#[trigger] captures[i]).var_span == var.span
            && captures[i].name == var.name@
}

/// The handles among the first `n` captured variables, each variable once.
pub open spec fn handles_in(
    hir: Hir,
    captured: Seq<CapturedVar>,
    blocks: Seq<usize>,
    n: int,
) -> Seq<CaptureView>
    decreases n,
{
    if n <= 0 {
        seq![]
    } else {
        let rest = handles_in(hir, captured, blocks, n - 1);
        let var = captured[n - 1];
        match handle_in(hir, var.ty) {
            Some(handle) => if listed(rest, var) {
                rest
            } else {
                rest.push(
                    CaptureView {
                        var_span: var.span,
                        name: var.name@,
                        handle,
                        clone_let: clone_let_from(hir, blocks, var.span, 0),
                    },
                )
            },
            None => rest,
        }
    }
}

/// Every captured handle is listed, and none twice: a captured variable is among
/// the captures exactly where its type is a reactive handle's.
pub proof fn handles_are_listed_once(
    hir: Hir,
    captured: Seq<CapturedVar>,
    blocks: Seq<usize>,
    n: int,
)
    requires
        0 <= n <= captured.len(),
    ensures
        forall|k: int|
            0 <= k < n && handle_in(hir, captured[k].ty) is Some ==> listed(
                handles_in(hir, captured, blocks, n),
                #[trigger] captured[k],
            ),
        forall|i: int, j: int|
            0 <= i < j < handles_in(hir, captured, blocks, n).len() ==> !((
            #[trigger] handles_in(hir, captured, blocks, n)[i]).var_span == (
            #[trigger] handles_in(hir, captured, blocks, n)[j]).var_span && handles_in(
                hir,
                captured,
                blocks,
                n,
            )[i].name == handles_in(hir, captured, blocks, n)[j].name),
    decreases n,
{
    if n > 0 {
        handles_are_listed_once(hir, captured, blocks, n - 1);
        let rest = handles_in(hir, captured, blocks, n - 1);
        let all = handles_in(hir, captured, blocks, n);
        assert forall|k: int| 0 <= k < n && handle_in(hir, captured[k].ty) is Some implies listed(
            all,
            #[trigger] captured[k],
        ) by {
            if listed(rest, captured[k]) {
                let i = choose|i: int|
                    0 <= i < rest.len() && (#[trigger] rest[i]).var_span == captured[k].span
                        && rest[i].name == captured[k].name@;
                assert(all[i] == rest[i]);
            } else {
                assert(k == n - 1);
                assert(all[all.len() - 1].var_span == captured[k].span);
            }
        }
    }
}

fn is_listed(captures: &Vec<HandleCapture>, var: &CapturedVar) -> (r: bool)
    ensures
        r == listed(capture_views(captures@), *var),
{
    let ghost views = capture_views(captures@);
    let mut i: usize = 0;
    while i < captures.len()
        invariant
            i <= captures.len(),
            views == capture_views(captures@),
            forall|k: int|
                0 <= k < i ==> !((#[trigger] views[k]).var_span == var.span && views[k].name
                    == var.name@),
        decreases captures.len() - i,
    {
        assert(views[i as int] == captures@[i as int]@);
        if captures[i].var_span == var.span && text::str_eq(
            captures[i].name.as_str(),
            var.name.as_str(),
        ) {
            return true;
        }
        i = i + 1;
    }
    false
}

fn captured_handles(hir: &Hir, closure: usize, blocks: &Vec<usize>) -> (r: Vec<HandleCapture>)
    requires
        hir.wf(),
        hir.has(closure),
        hir::all_below(blocks@, hir.nodes@.len() as int),
    ensures
        capture_views(r@) == handles_in(
            *hir,
            hir.node(closure).captured@,
            blocks@,
            hir.node(closure).captured@.len() as int,
        ),
{
    let captured: &Vec<CapturedVar> = &hir.nodes[closure].captured;
    let mut out: Vec<HandleCapture> = Vec::new();
    let mut i: usize = 0;
    proof {
        assert(hir.node_wf(closure));
        assert(capture_views(out@) =~= seq![]);
    }
    while i < captured.len()
        invariant
            i <= captured.len(),
            hir.wf(),
            hir::captured_below(captured@, hir.types@.len() as int),
            hir::all_below(blocks@, hir.nodes@.len() as int),
            capture_views(out@) == handles_in(*hir, captured@, blocks@, i as int),
        decreases captured.len() - i,
    {
        let var: &CapturedVar = &captured[i];
        if let Some(handle) = handle_name(hir, var.ty) {
            if !is_listed(&out, var) {
                let ghost before = out@;
                let capture: HandleCapture = HandleCapture {
                    var_span: var.span,
                    name: var.name.clone(),
                    handle,
                    clone_let: clone_let_span(hir, blocks, var.span),
                };
                out.push(capture);
                proof {
                    assert(capture_views(out@) =~= capture_views(before).push(capture@));
                }
            }
        }
        i = i + 1;
    }
    out
}

/// The labels for the first `n` captures.
pub open spec fn labelled(found: DiagnosticView, captures: Seq<CaptureView>, n: int) -> DiagnosticView
    decreases n,
{
    if n <= 0 {
        found
    } else {
        let capture = captures[n - 1];
        let one = labelled(found, captures, n - 1).with(
            RemarkView::Label(
                capture.var_span,
                "captures `"@ + capture.name + "`, a `"@ + capture.handle + "`"@,
            ),
        );
        match capture.clone_let {
            Some(span) => one.with(RemarkView::Label(span, "cloned here only to be captured"@)),
            None => one,
        }
    }
}

/// `.state(&<name>)` for the first `n` captures, in a row.
pub open spec fn injections(captures: Seq<CaptureView>, n: int) -> Seq<char>
    decreases n,
{
    if n <= 0 {
        seq![]
    } else {
        injections(captures, n - 1) + ".state(&"@ + captures[n - 1].name + ")"@
    }
}

/// The parameter that takes a capture's handle.
pub open spec fn parameter(capture: CaptureView) -> Seq<char> {
    "`State("@ + capture.name + "): State<"@ + capture.handle + "<T>>`"@
}

pub open spec fn parameters(captures: Seq<CaptureView>) -> Seq<Seq<char>> {
    captures.map_values(|capture: CaptureView| parameter(capture))
}

/// Every capture is a clone made for it.
pub open spec fn all_cloned(captures: Seq<CaptureView>) -> bool {
    forall|i: int| 0 <= i < captures.len() ==> (#[trigger] captures[i]).clone_let is Some
}

/// What to do about the captures.
pub open spec fn remedy(captures: Seq<CaptureView>) -> Seq<char> {
    if all_cloned(captures) {
        let one = captures.len() == 1;
        "delete those `let` lines together with the `move`, then inject "@ + (if one {
            "it"@
        } else {
            "them"@
        }) + " with `"@ + injections(captures, captures.len() as int) + ("` on the view and take "@
            + text::joined(parameters(captures), ", "@) + " as "@ + (if one {
            "a handler parameter"@
        } else {
            "handler parameters"@
        }) + ", so the handler can be a named function"@)
    } else {
        "inject it with `.state(&"@ + captures[0].name + ")` on the view and take `State("@
            + captures[0].name + ("): State<"@ + captures[0].handle
            + "<T>>` as a handler parameter, so the handler can be a named function"@)
    }
}

/// What is said of a closure that captures the handles.
pub open spec fn report_of(hir: Hir, closure: usize, captures: Seq<CaptureView>) -> DiagnosticView {
    labelled(
        DiagnosticView::bare(
            Lint::HandlerCapturesBinding,
            hir.node(closure).decl_span,
            "this handler captures a reactive handle instead of taking it as `State<T>`"@,
        ),
        captures,
        captures.len() as int,
    ).with(RemarkView::Help(remedy(captures)))
}

/// What is said of a handler argument.
pub open spec fn arg_finding(hir: Hir, arg: usize) -> Option<DiagnosticView> {
    match wrapped_closure(hir, arg) {
        Some((closure, blocks)) => {
            let captured = hir.node(closure).captured@;
            let captures = handles_in(hir, captured, blocks, captured.len() as int);
            if captures.len() > 0 {
                Some(report_of(hir, closure, captures))
            } else {
                None
            }
        },
        None => None,
    }
}

fn inject_text(captures: &Vec<HandleCapture>) -> (r: String)
    ensures
        r@ == injections(capture_views(captures@), captures@.len() as int),
{
    let ghost views = capture_views(captures@);
    let mut out: String = String::new();
    let mut i: usize = 0;
    proof {
        assert(out@ =~= seq![]);
    }
    while i < captures.len()
        invariant
            i <= captures.len(),
            views == capture_views(captures@),
            out@ == injections(views, i as int),
        decreases captures.len() - i,
    {
        assert(views[i as int] == captures@[i as int]@);
        out = text::cat4(out.as_str(), ".state(&", captures[i].name.as_str(), ")");
        i = i + 1;
    }
    out
}

fn params_text(captures: &Vec<HandleCapture>) -> (r: String)
    ensures
        r@ == text::joined(parameters(capture_views(captures@)), ", "@),
{
    let ghost views = capture_views(captures@);
    let mut list: Vec<String> = Vec::new();
    let mut i: usize = 0;
    while i < captures.len()
        invariant
            i <= captures.len(),
            views == capture_views(captures@),
            list.len() == i,
            forall|k: int| 0 <= k < i ==> (#[trigger] list@[k])@ == parameter(views[k]),
        decreases captures.len() - i,
    {
        assert(views[i as int] == captures@[i as int]@);
        list.push(
            text::cat5(
                "`State(",
                captures[i].name.as_str(),
                "): State<",
                captures[i].handle,
                "<T>>`",
            ),
        );
        i = i + 1;
    }
    proof {
        assert(text::texts(list@) =~= parameters(views));
    }
    text::join(&list, ", ")
}

fn are_all_cloned(captures: &Vec<HandleCapture>) -> (r: bool)
    ensures
        r == all_cloned(capture_views(captures@)),
{
    let ghost views = capture_views(captures@);
    let mut i: usize = 0;
    while i < captures.len()
        invariant
            i <= captures.len(),
            views == capture_views(captures@),
            forall|k: int| 0 <= k < i ==> (#[trigger] views[k]).clone_let is Some,
        decreases captures.len() - i,
    {
        assert(views[i as int] == captures@[i as int]@);
        if captures[i].clone_let.is_none() {
            return false;
        }
        i = i + 1;
    }
    true
}

fn remedy_text(captures: &Vec<HandleCapture>) -> (r: String)
    requires
        captures.len() > 0,
    ensures
        r@ == remedy(capture_views(captures@)),
{
    proof {
        assert(capture_views(captures@)[0] == captures@[0]@);
    }
    if are_all_cloned(captures) {
        let one: bool = captures.len() == 1;
        let inject: String = inject_text(captures);
        let params: String = params_text(captures);
        let tail: String = text::cat5(
            "` on the view and take ",
            params.as_str(),
            " as ",
            if one {
                "a handler parameter"
            } else {
                "handler parameters"
            },
            ", so the handler can be a named function",
        );
        text::cat5(
            "delete those `let` lines together with the `move`, then inject ",
            if one {
                "it"
            } else {
                "them"
            },
            " with `",
            inject.as_str(),
            tail.as_str(),
        )
    } else {
        let name: &str = captures[0].name.as_str();
        let tail: String = text::cat3(
            "): State<",
            captures[0].handle,
            "<T>>` as a handler parameter, so the handler can be a named function",
        );
        text::cat5(
            "inject it with `.state(&",
            name,
            ")` on the view and take `State(",
            name,
            tail.as_str(),
        )
    }
}

/// Reports the closure once if it captures a reactive handle: the primary span is
/// its parameter list, with one label per offending capture at the captured
/// variable's binding site. In the clone-then-move idiom the `let x = x.clone()`
/// lines are labelled too, and the help names deleting them together with the
/// `move`.
fn check_handler_closure(hir: &Hir, closure: usize, captures: &Vec<HandleCapture>) -> (r: Diagnostic)
    requires
        hir.has(closure),
        captures.len() > 0,
    ensures
        r@ == report_of(*hir, closure, capture_views(captures@)),
{
    let ghost views = capture_views(captures@);
    let mut found: Diagnostic = Diagnostic::bare(
        Lint::HandlerCapturesBinding,
        hir.nodes[closure].decl_span,
        "this handler captures a reactive handle instead of taking it as `State<T>`",
    );
    let ghost plain = found@;
    let mut i: usize = 0;
    while i < captures.len()
        invariant
            i <= captures.len(),
            views == capture_views(captures@),
            found@ == labelled(plain, views, i as int),
        decreases captures.len() - i,
    {
        assert(views[i as int] == captures@[i as int]@);
        let capture: &HandleCapture = &captures[i];
        found.span_label(
            capture.var_span,
            text::cat5("captures `", capture.name.as_str(), "`, a `", capture.handle, "`"),
        );
        if let Some(span) = capture.clone_let {
            found.span_label(span, "cloned here only to be captured".to_owned());
        }
        i = i + 1;
    }
    found.help(remedy_text(captures));
    found
}

fn check_arg(hir: &Hir, arg: usize) -> (r: Option<Diagnostic>)
    requires
        hir.wf(),
        hir.has(arg),
    ensures
        diagnostics::found(r) == arg_finding(*hir, arg),
{
    let mut blocks: Vec<usize> = Vec::new();
    let closure: usize = match closure_and_wrapper(hir, arg, &mut blocks) {
        Some(closure) => closure,
        None => {
            return None;
        },
    };
    proof {
        let (found, wrapper) = wrapped_closure(*hir, arg)->0;
        assert(blocks@ =~= wrapper);
    }
    let captures: Vec<HandleCapture> = captured_handles(hir, closure, &blocks);
    proof {
        assert(capture_views(captures@).len() == captures@.len());
    }
    if captures.len() == 0 {
        return None;
    }
    Some(check_handler_closure(hir, closure, &captures))
}

/// What is said of the first `n` handler arguments.
pub open spec fn findings_upto(hir: Hir, args: Seq<usize>, n: int) -> Seq<DiagnosticView>
    decreases n,
{
    if n <= 0 {
        seq![]
    } else {
        findings_upto(hir, args, n - 1) + diagnostics::found_seq(arg_finding(hir, args[n - 1]))
    }
}

/// What is said of an expression.
pub open spec fn findings(hir: Hir, n: usize) -> Seq<DiagnosticView> {
    let args = hir.node(n).handler_args@;
    findings_upto(hir, args, args.len() as int)
}

/// Flags a closure passed to a `Handler` or `HandlerOnce` parameter whose captures
/// include a `Binding<_>`, a `Computed<_>`, or a reactive `List<_>`. The
/// clone-then-move block spelling `.action({ let b = b.clone(); move || … })` is
/// the same capture.
pub fn check_expr(hir: &Hir, n: usize) -> (r: Vec<Diagnostic>)
    requires
        hir.wf(),
        hir.has(n),
    ensures
        diagnostics::found_all(r@) == findings(*hir, n),
{
    let args: &Vec<usize> = &hir.nodes[n].handler_args;
    let mut out: Vec<Diagnostic> = Vec::new();
    let mut i: usize = 0;
    proof {
        assert(hir.node_wf(n));
        assert(diagnostics::found_all(out@) =~= seq![]);
    }
    while i < args.len()
        invariant
            i <= args.len(),
            hir.wf(),
            hir.has(n),
            hir::all_below(args@, n as int),
            diagnostics::found_all(out@) == findings_upto(*hir, args@, i as int),
        decreases args.len() - i,
    {
        let finding: Option<Diagnostic> = check_arg(hir, args[i]);
        diagnostics::push_found(&mut out, finding);
        i = i + 1;
    }
    out
}

/// The type's handle is called by that name.
pub open spec fn is_handle(hir: Hir, t: usize, name: Seq<char>) -> bool {
    ||| hir.ty_is(hir.referent(t), Known::Binding) && name == "Binding"@
    ||| hir.ty_is(hir.referent(t), Known::Computed) && name == "Computed"@
    ||| hir.ty_is(hir.referent(t), Known::ListTy) && name == "ReactiveList"@
}

/// A capture is a variable that the closure captures, under its own name, whose
/// type, references aside, is the handle that it is said to be.
pub proof fn captures_are_what_they_are_called(
    hir: Hir,
    captured: Seq<CapturedVar>,
    blocks: Seq<usize>,
    n: int,
    k: int,
) -> (i: int)
    requires
        0 <= n <= captured.len(),
        0 <= k < handles_in(hir, captured, blocks, n).len(),
    ensures
        0 <= i < n,
        handles_in(hir, captured, blocks, n)[k].var_span == captured[i].span,
        handles_in(hir, captured, blocks, n)[k].name == captured[i].name@,
        is_handle(hir, captured[i].ty, handles_in(hir, captured, blocks, n)[k].handle),
    decreases n,
{
    let rest = handles_in(hir, captured, blocks, n - 1);
    if k < rest.len() {
        captures_are_what_they_are_called(hir, captured, blocks, n - 1, k)
    } else {
        n - 1
    }
}

/// The remedy injects every capture, in order: each adds its own `.state(&..)` at
/// the end, and its own parameter of the handle's type.
pub proof fn captures_are_injected_in_order(captures: Seq<CaptureView>, capture: CaptureView)
    ensures
        injections(captures.push(capture), captures.len() as int + 1) == injections(
            captures,
            captures.len() as int,
        ) + ".state(&"@ + capture.name + ")"@,
        parameters(captures.push(capture)) == parameters(captures).push(
            "`State("@ + capture.name + "): State<"@ + capture.handle + "<T>>`"@,
        ),
{
    lemma_injections(captures, capture, captures.len() as int);
    assert(parameters(captures.push(capture)) =~= parameters(captures).push(parameter(capture)));
}

proof fn lemma_injections(captures: Seq<CaptureView>, capture: CaptureView, n: int)
    requires
        0 <= n <= captures.len(),
    ensures
        injections(captures.push(capture), n) == injections(captures, n),
    decreases n,
{
    if n > 0 {
        lemma_injections(captures, capture, n - 1);
        assert(captures.push(capture)[n - 1] == captures[n - 1]);
    }
}

/// A handler is reported exactly where it captures a handle, at the closure.
pub proof fn capturing_handlers_are_reported(
    hir: Hir,
    arg: usize,
    closure: usize,
    blocks: Seq<usize>,
)
    requires
        wrapped_closure(hir, arg) == Some((closure, blocks)),
    ensures
        ({
            let captured = hir.node(closure).captured@;
            let captures = handles_in(hir, captured, blocks, captured.len() as int);
            &&& arg_finding(hir, arg) is Some <==> captures.len() > 0
            &&& arg_finding(hir, arg) matches Some(finding) ==> finding.span == hir.node(
                closure,
            ).decl_span && finding.remarks.len() > captures.len()
        }),
{
    let captured = hir.node(closure).captured@;
    let captures = handles_in(hir, captured, blocks, captured.len() as int);
    let bare = DiagnosticView::bare(
        Lint::HandlerCapturesBinding,
        hir.node(closure).decl_span,
        "this handler captures a reactive handle instead of taking it as `State<T>`"@,
    );
    lemma_labelled(bare, captures, captures.len() as int);
}

proof fn lemma_labelled(found: DiagnosticView, captures: Seq<CaptureView>, n: int)
    requires
        0 <= n <= captures.len(),
    ensures
        labelled(found, captures, n).span == found.span,
        labelled(found, captures, n).remarks.len() >= found.remarks.len() + n,
        forall|k: int|
            0 <= k < n ==> labelled(found, captures, n).remarks.contains(
                RemarkView::Label(
                    (#[trigger] captures[k]).var_span,
                    "captures `"@ + captures[k].name + "`, a `"@ + captures[k].handle + "`"@,
                ),
            ),
    decreases n,
{
    if n > 0 {
        lemma_labelled(found, captures, n - 1);
        let before = labelled(found, captures, n - 1);
        let after = labelled(found, captures, n);
        assert forall|k: int| 0 <= k < n implies after.remarks.contains(
            RemarkView::Label(
                (#[trigger] captures[k]).var_span,
                "captures `"@ + captures[k].name + "`, a `"@ + captures[k].handle + "`"@,
            ),
        ) by {
            let label = RemarkView::Label(
                captures[k].var_span,
                "captures `"@ + captures[k].name + "`, a `"@ + captures[k].handle + "`"@,
            );
            if k < n - 1 {
                let i = choose|i: int| 0 <= i < before.remarks.len() && before.remarks[i] == label;
                assert(after.remarks[i] == label);
            } else {
                assert(after.remarks[before.remarks.len() as int] == label);
            }
        }
    }
}

/// The report labels every capture where the variable is bound, with its name and
/// what handle it is.
pub proof fn captures_are_labelled(found: DiagnosticView, captures: Seq<CaptureView>, k: int)
    requires
        0 <= k < captures.len(),
    ensures
        labelled(found, captures, captures.len() as int).remarks.contains(
            RemarkView::Label(
                captures[k].var_span,
                "captures `"@ + captures[k].name + "`, a `"@ + captures[k].handle + "`"@,
            ),
        ),
{
    lemma_labelled(found, captures, captures.len() as int);
    assert(captures[k] == captures[k]);
}

proof fn lemma_findings_upto(hir: Hir, args: Seq<usize>, n: int, i: int)
    requires
        0 <= i < n <= args.len(),
    ensures
        arg_finding(hir, args[i]) matches Some(found) ==> findings_upto(hir, args, n).contains(
            found,
        ),
    decreases n,
{
    if let Some(found) = arg_finding(hir, args[i]) {
        let before = findings_upto(hir, args, n - 1);
        let here = diagnostics::found_seq(arg_finding(hir, args[n - 1]));
        if i < n - 1 {
            lemma_findings_upto(hir, args, n - 1, i);
            let m = choose|m: int| 0 <= m < before.len() && before[m] == found;
            assert((before + here)[m] == found);
        } else {
            assert(here[0] == found);
            assert((before + here)[before.len() as int] == found);
        }
    }
}

/// Every handler of a call is looked at.
pub proof fn every_handler_is_looked_at(hir: Hir, n: usize, i: int)
    requires
        0 <= i < hir.node(n).handler_args@.len(),
    ensures
        arg_finding(hir, hir.node(n).handler_args@[i]) matches Some(found) ==> findings(
            hir,
            n,
        ).contains(found),
{
    let args = hir.node(n).handler_args@;
    lemma_findings_upto(hir, args, args.len() as int, i);
}

/// The statement clones something into a name at `span`.
pub open spec fn clones_into(hir: Hir, stmt: usize, span: Span, id: usize) -> bool {
    &&& hir.kind(stmt) matches Kind::LetDecl { local }
    &&& hir.kind(local) matches Kind::LetStmt { pat, ty: _, init: Some(init), els: _ }
    &&& hir.resolves_item(init, Known::Clone)
    &&& hir.kind(pat) matches Kind::Binding { name, id: bound, sub: _ }
    &&& name.span == span
    &&& bound == id
}

proof fn lemma_binding_stmt(hir: Hir, stmts: Seq<usize>, span: Span, j: int)
    requires
        0 <= j,
    ensures
        binding_stmt(hir, stmts, span, j) matches Some(k) ==> j <= k < stmts.len() && let_at(
            hir,
            stmts[k],
            span,
        ) is Some,
    decreases stmts.len() - j,
{
    if j < stmts.len() {
        lemma_binding_stmt(hir, stmts, span, j + 1);
    }
}

/// The `let` that goes with a capture clones into the captured name, and nothing
/// behind it in its block or in a block further in reads that name.
pub proof fn dropped_clones_are_read_nowhere_else(
    hir: Hir,
    blocks: Seq<usize>,
    span: Span,
    i: int,
) -> (r: (int, int, usize))
    requires
        clone_let_from(hir, blocks, span, i) is Some,
        0 <= i,
    ensures
        i <= r.0 < blocks.len(),
        0 <= r.1 < stmts_of(hir, blocks[r.0]).len(),
        clone_let_from(hir, blocks, span, i) == Some(
            hir.node(stmts_of(hir, blocks[r.0])[r.1]).span,
        ),
        clones_into(hir, stmts_of(hir, blocks[r.0])[r.1], span, r.2),
        !manual_list_mutation::used_from(hir, stmts_of(hir, blocks[r.0]), None, r.1 + 1, r.2),
        forall|k: int|
            r.0 < k < blocks.len() ==> !manual_list_mutation::used_from(
                hir,
                stmts_of(hir, #[trigger] blocks[k]),
                None,
                0,
                r.2,
            ),
    decreases blocks.len() - i,
{
    let stmts = stmts_of(hir, blocks[i]);
    lemma_binding_stmt(hir, stmts, span, 0);
    match binding_stmt(hir, stmts, span, 0) {
        Some(j) => {
            let (id, _) = let_at(hir, stmts[j], span).unwrap();
            (i, j, id)
        },
        None => dropped_clones_are_read_nowhere_else(hir, blocks, span, i + 1),
    }
}

} // verus!
