//! `if_else_view`: `if`/`else` choosing between views instead of a reactive
//! `when` chain.

use crate::binding;
use crate::diagnostics;
use crate::diagnostics::{Applicability, Diagnostic, DiagnosticView, RemarkView};
use crate::hir;
use crate::hir::{Hir, Kind, Namespace, Span, Trait, TyKind, UnOp};
use crate::imports;
use crate::imports::{Bare, Module, Query};
use crate::known::Known;
use crate::lint::Lint;
use crate::text;
use vstd::prelude::*;

verus! {

/// Something in the condition reads a signal's current value.
pub open spec fn snapshots(hir: Hir, cond: usize) -> bool {
    exists|i: int|
        0 <= i < hir.exprs(cond, true).len() && hir.node(
            #[trigger] hir.exprs(cond, true)[i],
        ).snapshot
}

/// Whether the condition snapshots a signal anywhere inside it: the branch is
/// then chosen once, at build time.
pub fn contains_get(hir: &Hir, cond: usize) -> (r: bool)
    requires
        hir.wf(),
        hir.has(cond),
    ensures
        r == snapshots(*hir, cond),
{
    let list: Vec<usize> = hir.exprs_in(cond, true);
    let mut i: usize = 0;
    while i < list.len()
        invariant
            i <= list.len(),
            hir.has(cond),
            list@ == hir.exprs(cond, true),
            hir::all_below(list@, cond + 1),
            forall|k: int| 0 <= k < i ==> !hir.node(#[trigger] list@[k]).snapshot,
        decreases list.len() - i,
    {
        if hir.nodes[list[i]].snapshot {
            assert(hir.node(hir.exprs(cond, true)[i as int]).snapshot);
            return true;
        }
        i = i + 1;
    }
    false
}

/// The path `x` that the expression reads as `x.get()`.
pub open spec fn read_path(hir: Hir, n: usize) -> Option<usize> {
    let read = hir.undropped(n);
    match hir.node(read).get_receiver {
        Some(receiver) => if hir.node(read).snapshot && hir.kind(receiver) is Path {
            Some(receiver)
        } else {
            None
        },
        None => None,
    }
}

/// `x`, when the expression, drop-temps stripped, is exactly `x.get()` on a
/// signal and `x` is a path: the receiver the fix clones into `when(..)`.
pub fn path_get(hir: &Hir, n: usize) -> (r: Option<usize>)
    requires
        hir.wf(),
        hir.has(n),
    ensures
        r == read_path(*hir, n),
        r matches Some(receiver) ==> hir.has(receiver),
{
    let read: usize = hir.peel_drop_temps(n);
    proof {
        assert(hir.node_wf(read));
    }
    if !hir.nodes[read].snapshot {
        return None;
    }
    match hir.nodes[read].get_receiver {
        Some(receiver) => match &hir.nodes[receiver].kind {
            Kind::Path { .. } => Some(receiver),
            _ => None,
        },
        None => None,
    }
}

/// The path `x` that the condition reads as `!x.get()`.
pub open spec fn negated_path(hir: Hir, cond: usize) -> Option<usize> {
    match hir.kind(hir.undropped(cond)) {
        Kind::Unary { op: UnOp::Not, operand } => read_path(hir, operand),
        _ => None,
    }
}

fn negated_get(hir: &Hir, cond: usize) -> (r: Option<usize>)
    requires
        hir.wf(),
        hir.has(cond),
    ensures
        r == negated_path(*hir, cond),
        r matches Some(receiver) ==> hir.has(receiver),
{
    let inner: usize = hir.peel_drop_temps(cond);
    proof {
        assert(hir.node_wf(inner));
    }
    match &hir.nodes[inner].kind {
        Kind::Unary { op: UnOp::Not, operand } => path_get(hir, *operand),
        _ => None,
    }
}

/// `prefix`, the source of `n` and `suffix`.
pub open spec fn wrapped(hir: Hir, n: usize, prefix: Seq<char>, suffix: Seq<char>) -> Option<
    Seq<char>,
> {
    match hir.source(n) {
        Some(source) => Some(prefix + source + suffix),
        None => None,
    }
}

fn wrap(hir: &Hir, n: usize, prefix: &str, suffix: &str) -> (r: Option<String>)
    requires
        hir.has(n),
    ensures
        text::text_opt(r) == wrapped(*hir, n, prefix@, suffix@),
{
    match hir.snippet_opt(n) {
        Some(source) => Some(text::cat3(prefix, source.as_str(), suffix)),
        None => None,
    }
}

/// The `when` argument that a condition becomes.
pub open spec fn condition(hir: Hir, cond: usize) -> Option<Seq<char>> {
    match (read_path(hir, cond), negated_path(hir, cond)) {
        (Some(x), _) => wrapped(hir, x, ""@, ".clone()"@),
        (None, Some(x)) => wrapped(hir, x, "!"@, ".clone()"@),
        (None, None) => if snapshots(hir, cond) {
            None
        } else {
            wrapped(hir, cond, ""@, ""@)
        },
    }
}

/// The `when`/`or` argument a condition rewrites to: `x.get()` becomes
/// `x.clone()`, `!x.get()` becomes `!x.clone()`, a plain `bool` stays verbatim.
/// Nothing when the condition resists: a `.get()` deeper than the outer call, or
/// unreadable source.
pub fn cond_text(hir: &Hir, cond: usize) -> (r: Option<String>)
    requires
        hir.wf(),
        hir.has(cond),
    ensures
        text::text_opt(r) == condition(*hir, cond),
{
    if let Some(x) = path_get(hir, cond) {
        return wrap(hir, x, "", ".clone()");
    }
    if let Some(x) = negated_get(hir, cond) {
        return wrap(hir, x, "!", ".clone()");
    }
    if contains_get(hir, cond) {
        return None;
    }
    wrap(hir, cond, "", "")
}

/// What of an arm goes into the closure.
pub open spec fn arm_body(hir: Hir, arm: usize) -> usize {
    match hir.kind(arm) {
        Kind::BlockExpr { block } => match hir.kind(block) {
            Kind::Block { stmts, tail: Some(tail) } => if stmts@.len() == 0 {
                tail
            } else {
                arm
            },
            _ => arm,
        },
        _ => arm,
    }
}

/// `|| <arm>`.
pub open spec fn arm_closure(hir: Hir, arm: usize) -> Option<Seq<char>> {
    wrapped(hir, arm_body(hir, arm), "|| "@, ""@)
}

/// `|| <arm>`: an arm that is just one expression loses its braces
/// (`|| view(..)`); an arm with statements keeps them verbatim (`|| { .. }`).
pub fn arm_text(hir: &Hir, arm: usize) -> (r: Option<String>)
    requires
        hir.wf(),
        hir.has(arm),
    ensures
        text::text_opt(r) == arm_closure(*hir, arm),
{
    proof {
        assert(hir.node_wf(arm));
    }
    let body: usize = match &hir.nodes[arm].kind {
        Kind::BlockExpr { block } => {
            proof {
                assert(hir.node_wf(*block));
            }
            match &hir.nodes[*block].kind {
                Kind::Block { stmts, tail: Some(tail) } => if stmts.len() == 0 {
                    *tail
                } else {
                    arm
                },
                _ => arm,
            }
        },
        _ => arm,
    };
    wrap(hir, body, "|| ", "")
}

/// The expression is passed straight to a text or label parameter.
pub open spec fn fills_text(hir: Hir, n: usize) -> bool {
    match hir.up(n) {
        Some(p) => match hir.operand_place(p, n) {
            Some(i) => hir.bounded(p, i, seq![Known::IntoText, Known::IntoLabel]),
            None => false,
        },
        None => false,
    }
}

/// Whether the expression is passed straight to an `IntoText` or `IntoLabel`
/// parameter (`button(if c { text("a") } else { text("b") }, ..)`): the arms are
/// picked as a label, and `when` produces a view, not a label.
pub fn feeds_text_param(hir: &Hir, n: usize) -> (r: bool)
    requires
        hir.wf(),
        hir.has(n),
    ensures
        r == fills_text(*hir, n),
{
    match hir.parent(n) {
        Some(p) => match hir.arg_index(p, n) {
            Some(i) => hir.arg_has_bound(p, i, &[Known::IntoText, Known::IntoLabel]),
            None => false,
        },
        None => false,
    }
}

/// The item is defined in one of the framework's crates.
pub open spec fn framework_item(hir: Hir, def: usize) -> bool {
    let path = hir.defs@[def as int].path@;
    def < hir.defs@.len() && path.len() > 0 && (text::stands_at(path[0]@, "waterui"@, 0)
        || path[0]@ == "suiteki"@)
}

/// The type is a view of the framework.
pub open spec fn view_ty(hir: Hir, t: usize) -> bool {
    hir.ty(t).implements(Trait::View, seq![]) && match hir.ty(t).kind {
        TyKind::Adt { def, args: _ } => framework_item(hir, def),
        _ => hir.ty(t).opaque,
    }
}

/// Whether the type an `if`/`else` unifies to is a view: a struct or enum
/// defined in a `waterui*` crate (`AnyView`, `Text`, `VStack`, and the like), or
/// in `suiteki`, whose `Str` is the framework's string view, or an opaque `impl
/// View`; in each case guarded by an actual `View` impl. `()`, `&str`, `Option`,
/// `Result`, numbers and `!` never qualify no matter which traits they
/// implement.
pub fn is_view_ty(hir: &Hir, t: usize) -> (r: bool)
    requires
        t < hir.types.len(),
    ensures
        r == view_ty(*hir, t),
{
    if !hir.types[t].implements_trait(Trait::View) {
        return false;
    }
    match &hir.types[t].kind {
        TyKind::Adt { def, .. } => {
            if *def >= hir.defs.len() {
                return false;
            }
            let path: &Vec<String> = &hir.defs[*def].path;
            path.len() > 0 && (text::starts_with(path[0].as_str(), "waterui") || text::str_eq(
                path[0].as_str(),
                "suiteki",
            ))
        },
        _ => hir.types[t].opaque,
    }
}

/// An `else` part: the `else if` links in it, the conditions and arms of those,
/// and the last `else`, unless the chain is left alone.
pub ghost struct ChainView {
    pub links: Seq<usize>,
    pub branches: Seq<(usize, usize)>,
    pub last: Option<usize>,
}

/// The chain from an `else` part on.
pub open spec fn chain_from(hir: Hir, link: usize) -> ChainView
    decreases link,
{
    match hir.kind(link) {
        Kind::If { cond, then, els } => match els {
            Some(next) => if hir.kind(cond) is Let || next >= link {
                ChainView { links: seq![link], branches: seq![], last: None }
            } else {
                let rest = chain_from(hir, next);
                ChainView {
                    links: seq![link] + rest.links,
                    branches: seq![(cond, then)] + rest.branches,
                    last: rest.last,
                }
            },
            None => ChainView { links: seq![], branches: seq![], last: None },
        },
        _ => ChainView { links: seq![], branches: seq![], last: Some(link) },
    }
}

/// The branches are there.
pub open spec fn branches_fit(hir: Hir, branches: Seq<(usize, usize)>) -> bool {
    forall|i: int|
        0 <= i < branches.len() ==> hir.has((#[trigger] branches[i]).0) && hir.has(branches[i].1)
}

/// Follows the chain from an `else` part on: adds its links and branches, and
/// gives the last `else`. A chain without a final `else` has no value; an
/// `else if let` cannot be a `when` condition: both are left alone.
fn follow(
    hir: &Hir,
    link: usize,
    links: &mut Vec<usize>,
    branches: &mut Vec<(usize, usize)>,
) -> (r: Option<usize>)
    requires
        hir.wf(),
        hir.has(link),
        branches_fit(*hir, old(branches)@),
    ensures
        final(links)@ == old(links)@ + chain_from(*hir, link).links,
        final(branches)@ == old(branches)@ + chain_from(*hir, link).branches,
        branches_fit(*hir, final(branches)@),
        r == chain_from(*hir, link).last,
        r matches Some(last) ==> hir.has(last),
    decreases link,
{
    let ghost before = (links@, branches@);
    proof {
        assert(hir.node_wf(link));
        assert(before.0 =~= before.0 + seq![]);
        assert(before.1 =~= before.1 + seq![]);
    }
    match &hir.nodes[link].kind {
        Kind::If { cond, then, els: Some(next) } => {
            links.push(link);
            let is_let: bool = match &hir.nodes[*cond].kind {
                Kind::Let { .. } => true,
                _ => false,
            };
            if is_let {
                proof {
                    assert(links@ =~= before.0 + seq![link]);
                }
                return None;
            }
            branches.push((*cond, *then));
            let r: Option<usize> = follow(hir, *next, links, branches);
            proof {
                let rest = chain_from(*hir, *next);
                assert(links@ =~= before.0 + (seq![link] + rest.links));
                assert(branches@ =~= before.1 + (seq![(*cond, *then)] + rest.branches));
            }
            r
        },
        Kind::If { .. } => None,
        _ => Some(link),
    }
}

/// The chain of an `if`: its links, its branches and its last `else`.
pub open spec fn chain_of(hir: Hir, n: usize) -> ChainView {
    match hir.kind(n) {
        Kind::If { cond, then, els: Some(link) } => if hir.kind(cond) is Let {
            ChainView { links: seq![], branches: seq![], last: None }
        } else {
            let rest = chain_from(hir, link);
            ChainView { branches: seq![(cond, then)] + rest.branches, ..rest }
        },
        _ => ChainView { links: seq![], branches: seq![], last: None },
    }
}

/// `when(..)` and the `.or(..)`s for the first `n` branches.
pub open spec fn branches_text(hir: Hir, branches: Seq<(usize, usize)>, n: int) -> Option<Seq<char>>
    decreases n,
{
    if n <= 0 {
        Some(seq![])
    } else {
        match (
            branches_text(hir, branches, n - 1),
            condition(hir, branches[n - 1].0),
            arm_closure(hir, branches[n - 1].1),
        ) {
            (Some(head), Some(cond), Some(arm)) => Some(
                head + (if n == 1 {
                    "when("@
                } else {
                    ".or("@
                }) + cond + ", "@ + (arm + ")"@),
            ),
            _ => None,
        }
    }
}

proof fn lemma_unwritten(hir: Hir, branches: Seq<(usize, usize)>, m: int, n: int)
    requires
        m <= n,
        branches_text(hir, branches, m) is None,
    ensures
        branches_text(hir, branches, n) is None,
    decreases n,
{
    if m < n && n > 0 {
        lemma_unwritten(hir, branches, m, n - 1);
    }
}

fn write_branches(hir: &Hir, branches: &Vec<(usize, usize)>) -> (r: Option<String>)
    requires
        hir.wf(),
        branches_fit(*hir, branches@),
    ensures
        text::text_opt(r) == branches_text(*hir, branches@, branches@.len() as int),
{
    let mut out: String = String::new();
    let mut i: usize = 0;
    proof {
        assert(out@ =~= seq![]);
    }
    while i < branches.len()
        invariant
            i <= branches.len(),
            hir.wf(),
            branches_fit(*hir, branches@),
            branches_text(*hir, branches@, i as int) == Some(out@),
        decreases branches.len() - i,
    {
        let (cond, arm): (usize, usize) = branches[i];
        assert(branches@[i as int] == (cond, arm));
        match (cond_text(hir, cond), arm_text(hir, arm)) {
            (Some(cond), Some(arm)) => {
                let tail: String = text::cat(arm.as_str(), ")");
                out = text::cat5(
                    out.as_str(),
                    if i == 0 {
                        "when("
                    } else {
                        ".or("
                    },
                    cond.as_str(),
                    ", ",
                    tail.as_str(),
                );
            },
            _ => {
                proof {
                    lemma_unwritten(*hir, branches@, i + 1, branches@.len() as int);
                }
                return None;
            },
        }
        i = i + 1;
    }
    Some(out)
}

/// The whole replacement.
pub open spec fn replacement(hir: Hir, branches: Seq<(usize, usize)>, last: usize) -> Option<
    Seq<char>,
> {
    match (
        branches_text(hir, branches, branches.len() as int),
        arm_closure(hir, last),
    ) {
        (Some(head), Some(arm)) => Some(head + ".otherwise("@ + arm + ")"@),
        _ => None,
    }
}

/// What the fix changes, where the bare name `when` means what `status` says.
pub open spec fn fix_parts(
    hir: Hir,
    module: Module,
    status: Bare,
    n: usize,
    branches: Seq<(usize, usize)>,
    last: usize,
) -> Option<Seq<(Span, Seq<char>)>> {
    match (status, replacement(hir, branches, last)) {
        (Bare::Conflict, _) => None,
        (_, None) => None,
        (Bare::Same, Some(code)) => Some(seq![(hir.node(n).span, code)]),
        (_, Some(code)) => match binding::use_part(module, "waterui::widget::condition::when"@) {
            Some(part) => Some(seq![part, (hir.node(n).span, code)]),
            None => None,
        },
    }
}

/// The `when(..).or(..)*.otherwise(..)` replacement, plus the `use` the call
/// needs, unless a bare `when` already means the function or the name is taken,
/// which drops the suggestion entirely. Nothing when any condition or arm
/// resists a rewrite.
fn fix(
    hir: &Hir,
    module: &Module,
    status: Bare,
    n: usize,
    branches: &Vec<(usize, usize)>,
    last: usize,
) -> (r: Option<Vec<(Span, String)>>)
    requires
        hir.wf(),
        hir.has(n),
        hir.has(last),
        branches_fit(*hir, branches@),
    ensures
        match r {
            Some(parts) => fix_parts(*hir, *module, status, n, branches@, last) == Some(
                diagnostics::part_views(parts@),
            ),
            None => fix_parts(*hir, *module, status, n, branches@, last) is None,
        },
{
    if status == Bare::Conflict {
        return None;
    }
    let head: String = match write_branches(hir, branches) {
        Some(head) => head,
        None => {
            return None;
        },
    };
    let arm: String = match arm_text(hir, last) {
        Some(arm) => arm,
        None => {
            return None;
        },
    };
    let code: String = text::cat4(head.as_str(), ".otherwise(", arm.as_str(), ")");
    let ghost written = code@;
    let mut parts: Vec<(Span, String)> = Vec::new();
    proof {
        assert(diagnostics::part_views(parts@) =~= seq![]);
    }
    if status != Bare::Same {
        match binding::import_part(module, "waterui::widget::condition::when") {
            Some((span, import)) => {
                let ghost part = (span, import@);
                diagnostics::push_part(&mut parts, span, import);
                proof {
                    assert(diagnostics::part_views(parts@) =~= seq![part]);
                }
            },
            None => {
                return None;
            },
        }
    }
    diagnostics::push_part(&mut parts, hir.nodes[n].span, code);
    proof {
        assert(diagnostics::part_views(parts@) =~= fix_parts(
            *hir,
            *module,
            status,
            n,
            branches@,
            last,
        )->0);
    }
    Some(parts)
}

/// Some condition reads a signal's current value.
pub open spec fn any_snapshot(hir: Hir, branches: Seq<(usize, usize)>) -> bool {
    exists|i: int| 0 <= i < branches.len() && snapshots(hir, (#[trigger] branches[i]).0)
}

/// Some condition reads a signal's current value where it cannot be rewritten.
pub open spec fn any_deep(hir: Hir, branches: Seq<(usize, usize)>) -> bool {
    exists|i: int|
        0 <= i < branches.len() && snapshots(hir, (#[trigger] branches[i]).0) && condition(
            hir,
            branches[i].0,
        ) is None
}

fn has_snapshot(hir: &Hir, branches: &Vec<(usize, usize)>) -> (r: bool)
    requires
        hir.wf(),
        branches_fit(*hir, branches@),
    ensures
        r == any_snapshot(*hir, branches@),
{
    let mut i: usize = 0;
    while i < branches.len()
        invariant
            i <= branches.len(),
            hir.wf(),
            branches_fit(*hir, branches@),
            forall|k: int| 0 <= k < i ==> !snapshots(*hir, (#[trigger] branches@[k]).0),
        decreases branches.len() - i,
    {
        assert(hir.has(branches@[i as int].0));
        if contains_get(hir, branches[i].0) {
            return true;
        }
        i = i + 1;
    }
    false
}

fn has_deep(hir: &Hir, branches: &Vec<(usize, usize)>) -> (r: bool)
    requires
        hir.wf(),
        branches_fit(*hir, branches@),
    ensures
        r == any_deep(*hir, branches@),
{
    let mut i: usize = 0;
    while i < branches.len()
        invariant
            i <= branches.len(),
            hir.wf(),
            branches_fit(*hir, branches@),
            forall|k: int|
                0 <= k < i ==> !(snapshots(*hir, (#[trigger] branches@[k]).0) && condition(
                    *hir,
                    branches@[k].0,
                ) is None),
        decreases branches.len() - i,
    {
        assert(hir.has(branches@[i as int].0));
        if contains_get(hir, branches[i].0) && cond_text(hir, branches[i].0).is_none() {
            return true;
        }
        i = i + 1;
    }
    false
}

/// What `when` would mean at a node.
pub open spec fn when_status(hir: Hir, module: Module, when: Option<usize>, n: usize) -> Bare {
    imports::bare_meaning(
        hir,
        module,
        n,
        hir.node(n).span.lo,
        "when"@,
        Namespace::Value,
        when,
    )
}

/// What is said of a chain.
pub open spec fn report_of(
    hir: Hir,
    module: Module,
    when: Option<usize>,
    n: usize,
    branches: Seq<(usize, usize)>,
    last: usize,
) -> DiagnosticView {
    let snapshot = any_snapshot(hir, branches);
    let plain = DiagnosticView::bare(
        Lint::IfElseView,
        hir.node(n).span,
        if snapshot {
            "this branch is chosen once; `when(x, || ..).otherwise(|| ..)` switches reactively"@
        } else {
            "`if`/`else` on views \u{2014} `when(cond, || ..).otherwise(|| ..)` needs no erasure and stays reactive"@
        },
    );
    let noted = if snapshot {
        plain.with(
            RemarkView::Note(
                "the `.get()` reads the signal once \u{2014} the chosen branch never re-evaluates"@,
            ),
        )
    } else {
        plain
    };
    noted.with(
        match fix_parts(hir, module, when_status(hir, module, when, n), n, branches, last) {
            Some(parts) => RemarkView::Multipart {
                label: "rewrite as `when(cond, || ..).otherwise(|| ..)`"@,
                parts,
                applicability: Applicability::MaybeIncorrect,
            },
            None => RemarkView::Help(
                if any_deep(hir, branches) {
                    "derive a `Computed<bool>` with `map`/`zip` and pass it to `when`"@
                } else {
                    "import `waterui::widget::condition::when` and rewrite the branch as `when(cond, || ..).otherwise(|| ..)`"@
                },
            ),
        },
    )
}

fn report(
    hir: &Hir,
    module: &Module,
    when: Option<usize>,
    n: usize,
    branches: &Vec<(usize, usize)>,
    last: usize,
) -> (r: Diagnostic)
    requires
        hir.wf(),
        hir.has(n),
        hir.has(last),
        branches_fit(*hir, branches@),
    ensures
        r@ == report_of(*hir, *module, when, n, branches@, last),
{
    let snapshot: bool = has_snapshot(hir, branches);
    let mut found: Diagnostic = Diagnostic::bare(
        Lint::IfElseView,
        hir.nodes[n].span,
        if snapshot {
            "this branch is chosen once; `when(x, || ..).otherwise(|| ..)` switches reactively"
        } else {
            "`if`/`else` on views \u{2014} `when(cond, || ..).otherwise(|| ..)` needs no erasure and stays reactive"
        },
    );
    if snapshot {
        found.note(
            "the `.get()` reads the signal once \u{2014} the chosen branch never re-evaluates".to_owned(),
        );
    }
    let status: Bare = imports::bare_status(
        hir,
        module,
        n,
        &Query { pos: hir.nodes[n].span.lo, name: "when", ns: Namespace::Value, target: when },
    );
    match fix(hir, module, status, n, branches, last) {
        Some(parts) => {
            found.multipart_suggestion(
                "rewrite as `when(cond, || ..).otherwise(|| ..)`",
                parts,
                Applicability::MaybeIncorrect,
            );
        },
        None => {
            if has_deep(hir, branches) {
                found.help(
                    "derive a `Computed<bool>` with `map`/`zip` and pass it to `when`".to_owned(),
                );
            } else {
                found.help(
                    "import `waterui::widget::condition::when` and rewrite the branch as `when(cond, || ..).otherwise(|| ..)`".to_owned(),
                );
            }
        },
    }
    found
}

/// The lint pass. `chained` records the `else if` links an outer `if` already
/// covers, so a chain reports once.
#[derive(Debug)]
pub struct IfElseView {
    pub chained: Vec<usize>,
}

/// The `if` is looked at: no macro wrote it and no outer `if` covers it.
pub open spec fn fresh(hir: Hir, chained: Seq<usize>, n: usize) -> bool {
    !hir.node(n).span.expanded() && !chained.contains(n)
}

/// The links recorded once an expression has been looked at.
pub open spec fn chained_after(hir: Hir, chained: Seq<usize>, n: usize) -> Seq<usize> {
    if fresh(hir, chained, n) {
        chained + chain_of(hir, n).links
    } else {
        chained
    }
}

/// What is said of an expression.
pub open spec fn finding_at(
    hir: Hir,
    module: Module,
    when: Option<usize>,
    chained: Seq<usize>,
    n: usize,
) -> Option<DiagnosticView> {
    let chain = chain_of(hir, n);
    match chain.last {
        Some(last) => if fresh(hir, chained, n) && view_ty(hir, hir.node(n).ty) && !fills_text(
            hir,
            n,
        ) {
            Some(report_of(hir, module, when, n, chain.branches, last))
        } else {
            None
        },
        None => None,
    }
}

/// A chain reports once: once its outer `if` has been looked at, nothing is said
/// of its `else if` links.
pub proof fn chain_reports_once(
    hir: Hir,
    module: Module,
    when: Option<usize>,
    chained: Seq<usize>,
    n: usize,
    link: usize,
)
    requires
        fresh(hir, chained, n),
        chain_of(hir, n).links.contains(link),
    ensures
        finding_at(hir, module, when, chained_after(hir, chained, n), link) is None,
{
    let links = chain_of(hir, n).links;
    let i = choose|i: int| 0 <= i < links.len() && links[i] == link;
    assert(chained_after(hir, chained, n)[chained.len() + i] == link);
}

/// What an outer `if` covers stays covered, whatever is looked at afterwards.
pub proof fn covered_links_stay_covered(hir: Hir, chained: Seq<usize>, n: usize, link: usize)
    requires
        chained.contains(link),
    ensures
        chained_after(hir, chained, n).contains(link),
{
    let i = choose|i: int| 0 <= i < chained.len() && chained[i] == link;
    assert(chained_after(hir, chained, n)[i] == link);
}

/// The condition, apart from temporaries, reads the signal at the path `x`, whose
/// source is `source`, as `x.get()`.
pub open spec fn gets(hir: Hir, cond: usize, x: usize, source: Seq<char>) -> bool {
    let read = hir.node(hir.undropped(cond));
    read.snapshot && read.get_receiver == Some(x) && hir.kind(x) is Path && hir.source(x) == Some(
        source,
    )
}

/// The `when` argument written for a condition holds exactly when the condition
/// does: `x.get()` becomes the signal itself, the source of `x` and `.clone()`
/// with nothing in front; `!x.get()` becomes the same text behind a single `!`;
/// and a condition that reads no signal stays as it is written.
pub proof fn conditions_keep_their_sense(hir: Hir, cond: usize, x: usize, source: Seq<char>)
    ensures
        gets(hir, cond, x, source) ==> condition(hir, cond) == Some(source + ".clone()"@),
        forall|operand: usize|
            {
                &&& hir.kind(hir.undropped(cond)) == (Kind::Unary { op: UnOp::Not, operand })
                &&& #[trigger] gets(hir, operand, x, source)
                &&& hir.node(hir.undropped(cond)).get_receiver is None
            } ==> {
                &&& condition(hir, operand) is Some
                &&& condition(hir, cond) == Some("!"@ + condition(hir, operand)->0)
                &&& condition(hir, cond) == Some("!"@ + source + ".clone()"@)
            },
        hir.source(cond) == Some(source) && (forall|i: int|
            0 <= i < hir.exprs(cond, true).len() ==> !hir.node(
                #[trigger] hir.exprs(cond, true)[i],
            ).snapshot) && !hir.node(hir.undropped(cond)).snapshot && (hir.kind(
            hir.undropped(cond),
        ) matches Kind::Unary { op: UnOp::Not, operand } ==> !hir.node(
            hir.undropped(operand),
        ).snapshot) ==> condition(hir, cond) == Some(source),
{
    reveal_strlit("");
    assert(""@ =~= seq![]);
    assert(""@ + source + ".clone()"@ =~= source + ".clone()"@);
    assert(""@ + source + ""@ =~= source);
    assert("!"@ + (source + ".clone()"@) =~= "!"@ + source + ".clone()"@);
}

/// The arm is a block with one expression and no statements.
pub open spec fn sole_in_arm(hir: Hir, arm: usize, body: usize) -> bool {
    hir.kind(arm) matches Kind::BlockExpr { block } && hir.kind(block) matches Kind::Block {
        stmts,
        tail: Some(tail),
    } && stmts@.len() == 0 && body == tail
}

/// The arm of a branch: the block's one expression, or else the arm whole.
pub open spec fn holds_arm(hir: Hir, arm: usize, body: usize) -> bool {
    ||| sole_in_arm(hir, arm, body)
    ||| body == arm && forall|other: usize| !#[trigger] sole_in_arm(hir, arm, other)
}

/// In `when(..).or(..).otherwise(..)` each condition keeps its own arm, in the
/// order of the chain, and the last `else` goes to `otherwise`: what one branch
/// adds is the call with its own condition and the closure over its own arm.
pub proof fn arms_keep_their_conditions(
    hir: Hir,
    branches: Seq<(usize, usize)>,
    last: usize,
    i: int,
) -> (r: (usize, usize))
    requires
        0 <= i < branches.len(),
        replacement(hir, branches, last) is Some,
    ensures
        holds_arm(hir, branches[i].1, r.0),
        holds_arm(hir, last, r.1),
        hir.source(r.0) is Some,
        hir.source(r.1) is Some,
        condition(hir, branches[i].0) is Some,
        branches_text(hir, branches, i) is Some,
        branches_text(hir, branches, i + 1) == Some(
            branches_text(hir, branches, i)->0 + (if i == 0 {
                "when("@
            } else {
                ".or("@
            }) + condition(hir, branches[i].0)->0 + ", || "@ + hir.source(r.0)->0 + ")"@,
        ),
        replacement(hir, branches, last) == Some(
            branches_text(hir, branches, branches.len() as int)->0 + ".otherwise(|| "@ + hir.source(
                r.1,
            )->0 + ")"@,
        ),
{
    let n = branches.len() as int;
    if branches_text(hir, branches, i + 1) is None {
        lemma_unwritten(hir, branches, i + 1, n);
    }
    if branches_text(hir, branches, i) is None {
        lemma_unwritten(hir, branches, i, n);
    }
    let body = arm_body(hir, branches[i].1);
    let end = arm_body(hir, last);
    reveal_strlit("");
    reveal_strlit("|| ");
    reveal_strlit(", ");
    reveal_strlit(", || ");
    reveal_strlit(".otherwise(");
    reveal_strlit(".otherwise(|| ");
    let head = branches_text(hir, branches, i)->0;
    let call = if i == 0 {
        "when("@
    } else {
        ".or("@
    };
    let cond = condition(hir, branches[i].0)->0;
    let source = hir.source(body)->0;
    assert(", "@ + "|| "@ =~= ", || "@);
    assert(head + call + cond + ", "@ + ("|| "@ + source + ""@ + ")"@) =~= head + call + cond
        + ", || "@ + source + ")"@);
    let all = branches_text(hir, branches, n)->0;
    let tail = hir.source(end)->0;
    assert(".otherwise("@ + "|| "@ =~= ".otherwise(|| "@);
    assert(all + ".otherwise("@ + ("|| "@ + tail + ""@) + ")"@ =~= all + ".otherwise(|| "@ + tail
        + ")"@);
    (body, end)
}

/// The fix replaces the whole `if` by the chain of calls, and brings `when` into
/// scope exactly where the bare name does not mean the function already; where
/// the name means something else there is no fix.
pub proof fn fixes_replace_the_if(
    hir: Hir,
    module: Module,
    status: Bare,
    n: usize,
    branches: Seq<(usize, usize)>,
    last: usize,
)
    ensures
        fix_parts(hir, module, status, n, branches, last) matches Some(parts) ==> {
            &&& replacement(hir, branches, last) matches Some(code)
            &&& parts.last() == (hir.node(n).span, code)
            &&& status != Bare::Conflict
            &&& parts.len() == (if status == Bare::Same {
                1int
            } else {
                2
            })
        },
        status == Bare::Same && replacement(hir, branches, last) is Some ==> fix_parts(
            hir,
            module,
            status,
            n,
            branches,
            last,
        ) is Some,
{
}

/// The chain of an `if`: the first branch is its own condition and arm, and each
/// further one is that of the `else if` that its predecessor's `else` holds.
pub open spec fn linked(hir: Hir, n: usize, branches: Seq<(usize, usize)>, last: usize) -> bool
    decreases branches.len(),
{
    if branches.len() == 0 {
        n == last && !(hir.kind(n) is If)
    } else {
        hir.kind(n) matches Kind::If { cond, then, els: Some(next) } && branches[0] == (cond, then)
            && !(hir.kind(cond) is Let) && linked(hir, next, branches.drop_first(), last)
    }
}

proof fn lemma_linked(hir: Hir, link: usize)
    ensures
        chain_from(hir, link).last matches Some(last) ==> linked(
            hir,
            link,
            chain_from(hir, link).branches,
            last,
        ),
    decreases link,
{
    match hir.kind(link) {
        Kind::If { cond, then, els: Some(next) } => {
            if !(hir.kind(cond) is Let) && next < link {
                lemma_linked(hir, next);
                let rest = chain_from(hir, next);
                let branches = chain_from(hir, link).branches;
                assert(branches.drop_first() =~= rest.branches);
            }
        },
        _ => {},
    }
}

/// A report covers the chain as it is written: its branches are the conditions
/// and arms of the `if` and of the `else if`s behind it, in order, and its last
/// arm is the `else` at the end.
pub proof fn reports_follow_the_chain(
    hir: Hir,
    module: Module,
    when: Option<usize>,
    chained: Seq<usize>,
    n: usize,
)
    ensures
        finding_at(hir, module, when, chained, n) is Some ==> exists|
            branches: Seq<(usize, usize)>,
            last: usize,
        |
            {
                &&& branches.len() > 0
                &&& #[trigger] linked(hir, n, branches, last)
                &&& finding_at(hir, module, when, chained, n) == Some(
                    report_of(hir, module, when, n, branches, last),
                )
            },
{
    if finding_at(hir, module, when, chained, n) is Some {
        let chain = chain_of(hir, n);
        match hir.kind(n) {
            Kind::If { cond, then, els: Some(link) } => {
                lemma_linked(hir, link);
                let rest = chain_from(hir, link);
                assert(chain.branches.drop_first() =~= rest.branches);
                assert(linked(hir, n, chain.branches, chain.last->0));
            },
            _ => {},
        }
    }
}

impl Default for IfElseView {
    fn default() -> (r: IfElseView)
        ensures
            r.chained@.len() == 0,
    {
        IfElseView::new()
    }
}

impl IfElseView {
    /// Nothing covered yet.
    pub fn new() -> (r: IfElseView)
        ensures
            r.chained@.len() == 0,
    {
        IfElseView { chained: Vec::new() }
    }

    fn covers(&self, n: usize) -> (r: bool)
        ensures
            r == self.chained@.contains(n),
    {
        let mut i: usize = 0;
        while i < self.chained.len()
            invariant
                i <= self.chained.len(),
                forall|k: int| 0 <= k < i ==> self.chained@[k] != n,
            decreases self.chained.len() - i,
        {
            if self.chained[i] == n {
                assert(self.chained@[i as int] == n);
                return true;
            }
            i = i + 1;
        }
        false
    }

    /// Flags an `if`/`else` whose arms unify to a view. An `else if` chain
    /// reports once, on the outer `if`. `when` is the function of that name.
    pub fn check_expr(&mut self, hir: &Hir, module: &Module, when: Option<usize>, n: usize) -> (r:
        Option<Diagnostic>)
        requires
            hir.wf(),
            hir.has(n),
        ensures
            diagnostics::found(r) == finding_at(*hir, *module, when, old(self).chained@, n),
            final(self).chained@ == chained_after(*hir, old(self).chained@, n),
    {
        let ghost before = self.chained@;
        proof {
            assert(before =~= before + seq![]);
            assert(hir.node_wf(n));
        }
        if hir.nodes[n].span.from_expansion() || self.covers(n) {
            return None;
        }
        let (cond, then, link): (usize, usize, usize) = match &hir.nodes[n].kind {
            Kind::If { cond, then, els: Some(link) } => (*cond, *then, *link),
            _ => {
                return None;
            },
        };
        if let Kind::Let { .. } = &hir.nodes[cond].kind {
            return None;
        }
        let mut branches: Vec<(usize, usize)> = Vec::new();
        branches.push((cond, then));
        proof {
            assert(branches@ =~= seq![(cond, then)]);
        }
        let last: usize = match follow(hir, link, &mut self.chained, &mut branches) {
            Some(last) => last,
            None => {
                return None;
            },
        };
        if !is_view_ty(hir, hir.nodes[n].ty) || feeds_text_param(hir, n) {
            return None;
        }
        Some(report(hir, module, when, n, &branches, last))
    }
}

} // verus!
