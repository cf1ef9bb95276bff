//! `collection_item_snapshot`: a non-signal field of a `for_each` item drives a
//! reactive property.

use crate::diagnostics;
use crate::diagnostics::{Diagnostic, DiagnosticView, RemarkView};
use crate::hir;
use crate::hir::{Hir, Kind, Trait, TyKind};
use crate::known::Known;
use crate::lint::Lint;
use crate::signal_map;
use crate::text;
use vstd::prelude::*;

verus! {

/// The binding that a pattern as a whole is.
pub open spec fn root_binding(hir: Hir, pat: usize) -> Option<usize> {
    match hir.kind(pat) {
        Kind::Binding { name: _, id, sub: _ } => Some(id),
        _ => None,
    }
}

/// The field of the item that an expression reads, by name.
pub open spec fn field_read(hir: Hir, pat: usize, n: usize) -> Option<Seq<char>> {
    let ids = signal_map::binding_ids(hir, pat);
    match hir.kind(n) {
        Kind::Field { base, name } => match hir.local(hir.unwrapped(base)) {
            Some(id) => if ids.contains(id) {
                Some(name.name@)
            } else {
                None
            },
            None => None,
        },
        Kind::Path { plain: _, segments, res: _ } => match hir.local(n) {
            Some(id) => if ids.contains(id) && root_binding(hir, pat) != Some(id) && segments@.len()
                > 0 {
                Some(segments@.last().name@)
            } else {
                None
            },
            None => None,
        },
        _ => None,
    }
}

fn contains_id(list: &Vec<usize>, id: usize) -> (r: bool)
    ensures
        r == list@.contains(id),
{
    let mut i: usize = 0;
    while i < list.len()
        invariant
            i <= list.len(),
            forall|k: int| 0 <= k < i ==> list@[k] != id,
        decreases list.len() - i,
    {
        if list[i] == id {
            assert(list@[i as int] == id);
            return true;
        }
        i = i + 1;
    }
    false
}

/// The name of the field that the expression reads of the item: a `Field` whose
/// base (`&` and `.clone()` peeled) resolves to a binding of the generator's
/// parameter pattern, or a direct read of a field that pattern destructures
/// (`|Item { unread, .. }|` binds `unread` itself). A binding of the pattern other
/// than the root, which binds the whole item, is a destructured field.
pub fn item_field_read(hir: &Hir, pat: usize, ids: &Vec<usize>, n: usize) -> (r: Option<String>)
    requires
        hir.wf(),
        hir.has(pat),
        hir.has(n),
        ids@ == signal_map::binding_ids(*hir, pat),
    ensures
        text::text_opt(r) == field_read(*hir, pat, n),
{
    proof {
        assert(hir.node_wf(n));
    }
    match &hir.nodes[n].kind {
        Kind::Field { base, name } => match hir.res_local(hir.strip_wraps(*base)) {
            Some(id) => if contains_id(ids, id) {
                Some(name.name.clone())
            } else {
                None
            },
            None => None,
        },
        Kind::Path { segments, .. } => {
            let id: usize = match hir.res_local(n) {
                Some(id) => id,
                None => {
                    return None;
                },
            };
            let whole: bool = match &hir.nodes[pat].kind {
                Kind::Binding { id: root, .. } => *root == id,
                _ => false,
            };
            let count: usize = segments.len();
            if contains_id(ids, id) && !whole && count > 0 {
                Some(segments[count - 1].name.clone())
            } else {
                None
            }
        },
        _ => None,
    }
}

/// The type is `()`.
pub open spec fn unit(hir: Hir, t: usize) -> bool {
    t < hir.types@.len() && match hir.ty(t).kind {
        TyKind::Tuple { parts } => parts@.len() == 0,
        _ => false,
    }
}

/// The type is a live signal.
pub open spec fn live(hir: Hir, t: usize) -> bool {
    hir.ty(t).implements(Trait::Signal, seq![]) && match hir.ty(t).guard {
        Some(guard) => !unit(hir, guard),
        None => true,
    }
}

/// Whether the type is a live signal handle: `Binding`, `Computed`, a derived
/// signal, or any other `Signal` whose `watch` produces a real guard. The constant
/// impls have `()` for a guard because their `watch` is a no-op. A guard that is
/// not known stays silent: the field cannot be proven a plain value.
pub fn is_live_signal(hir: &Hir, t: usize) -> (r: bool)
    requires
        t < hir.types.len(),
    ensures
        r == live(*hir, t),
{
    if !hir.types[t].implements_trait(Trait::Signal) {
        return false;
    }
    match hir.types[t].guard {
        Some(guard) => {
            if guard >= hir.types.len() {
                return true;
            }
            match &hir.types[guard].kind {
                TyKind::Tuple { parts } => parts.len() > 0,
                _ => true,
            }
        },
        None => true,
    }
}

/// The bounds of parameters that take a reactive property.
pub open spec fn reactive_bounds() -> Seq<Known> {
    seq![Known::IntoSignalTrait, Known::IntoComputedTrait, Known::IntoSignalF32]
}

/// What is said of an expression in the generator's body.
pub open spec fn read_finding(hir: Hir, pat: usize, n: usize) -> Option<DiagnosticView> {
    match (field_read(hir, pat, n), hir.carried(n)) {
        (Some(field), Some((call, index))) => if hir.node(n).span.expanded() || live(
            hir,
            hir.node(n).ty,
        ) || !hir.bounded(call, index, reactive_bounds()) {
            None
        } else {
            Some(
                DiagnosticView::bare(
                    Lint::CollectionItemSnapshot,
                    hir.node(call).span,
                    "this reactive property is a snapshot of an item field"@,
                ).with(
                    RemarkView::Label(
                        hir.node(n).span,
                        "changes to `"@ + field
                            + "` will not re-render the row unless the item's id changes"@,
                    ),
                ).with(
                    RemarkView::Help(
                        "derive it as a `Computed` from the owning collection, or keep a `Binding` on the item, so the row updates in place; `#[allow(collection_item_snapshot)]` on the closure if the field is immutable row data"@,
                    ),
                ),
            )
        },
        _ => None,
    }
}

fn check_read(hir: &Hir, pat: usize, ids: &Vec<usize>, n: usize) -> (r: Option<Diagnostic>)
    requires
        hir.wf(),
        hir.has(pat),
        hir.has(n),
        ids@ == signal_map::binding_ids(*hir, pat),
    ensures
        diagnostics::found(r) == read_finding(*hir, pat, n),
{
    if hir.nodes[n].span.from_expansion() {
        return None;
    }
    let field: String = match item_field_read(hir, pat, ids, n) {
        Some(field) => field,
        None => {
            return None;
        },
    };
    proof {
        assert(hir.node_wf(n));
    }
    if is_live_signal(hir, hir.nodes[n].ty) {
        return None;
    }
    let (call, index): (usize, usize) = match hir.carried_arg(n) {
        Some(found) => found,
        None => {
            return None;
        },
    };
    let bounds = [Known::IntoSignalTrait, Known::IntoComputedTrait, Known::IntoSignalF32];
    proof {
        assert(bounds@ =~= reactive_bounds());
    }
    if !hir.arg_has_bound(call, index, &bounds) {
        return None;
    }
    let mut found: Diagnostic = Diagnostic::bare(
        Lint::CollectionItemSnapshot,
        hir.nodes[call].span,
        "this reactive property is a snapshot of an item field",
    );
    found.span_label(
        hir.nodes[n].span,
        text::cat3(
            "changes to `",
            field.as_str(),
            "` will not re-render the row unless the item's id changes",
        ),
    );
    found.help(
        "derive it as a `Computed` from the owning collection, or keep a `Binding` on the item, so the row updates in place; `#[allow(collection_item_snapshot)]` on the closure if the field is immutable row data".to_owned(),
    );
    Some(found)
}

/// What is said of the first `n` expressions.
pub open spec fn reads_upto(hir: Hir, pat: usize, list: Seq<usize>, n: int) -> Seq<DiagnosticView>
    decreases n,
{
    if n <= 0 {
        seq![]
    } else {
        reads_upto(hir, pat, list, n - 1) + diagnostics::found_seq(
            read_finding(hir, pat, list[n - 1]),
        )
    }
}

/// The parameter pattern and the body of a row builder.
pub open spec fn builder_parts(hir: Hir, n: usize) -> Option<(usize, usize)> {
    match hir.node(n).row_builder {
        Some(closure) => match hir.kind(closure) {
            Kind::Closure { params, body, by_move: _ } => if params@.len() == 1 {
                match hir.kind(params@[0]) {
                    Kind::Param { pat } => Some((pat, body)),
                    _ => None,
                }
            } else {
                None
            },
            _ => None,
        },
        None => None,
    }
}

fn row_builder_parts(hir: &Hir, n: usize) -> (r: Option<(usize, usize)>)
    requires
        hir.wf(),
        hir.has(n),
    ensures
        r == builder_parts(*hir, n),
        r matches Some((pat, body)) ==> hir.has(pat) && hir.has(body),
{
    proof {
        assert(hir.node_wf(n));
    }
    let closure: usize = match hir.nodes[n].row_builder {
        Some(closure) => closure,
        None => {
            return None;
        },
    };
    proof {
        assert(hir.node_wf(closure));
    }
    match &hir.nodes[closure].kind {
        Kind::Closure { params, body, .. } => {
            if params.len() != 1 {
                return None;
            }
            proof {
                assert(hir.node_wf(params@[0]));
            }
            match &hir.nodes[params[0]].kind {
                Kind::Param { pat } => Some((*pat, *body)),
                _ => None,
            }
        },
        _ => None,
    }
}

/// What is said of an expression.
pub open spec fn findings(hir: Hir, n: usize) -> Seq<DiagnosticView> {
    match builder_parts(hir, n) {
        Some((pat, body)) => if hir.node(n).span.expanded() {
            seq![]
        } else {
            let list = hir.exprs(body, true);
            reads_upto(hir, pat, list, list.len() as int)
        },
        None => seq![],
    }
}

/// Flags a read of a non-signal field of a `for_each` item inside the generator
/// closure, when the read flows through value carriers (`.clone()`, `&`,
/// `format!(..)`, and the like) into a parameter bound by `IntoSignal`,
/// `IntoComputed`, or `IntoSignalF32`. Text and label positions are out of scope:
/// rendering text from item fields is ordinary row content.
pub fn check_expr(hir: &Hir, n: usize) -> (r: Vec<Diagnostic>)
    requires
        hir.wf(),
        hir.has(n),
    ensures
        diagnostics::found_all(r@) == findings(*hir, n),
{
    let mut out: Vec<Diagnostic> = Vec::new();
    proof {
        assert(diagnostics::found_all(out@) =~= seq![]);
    }
    if hir.nodes[n].span.from_expansion() {
        return out;
    }
    let (pat, body): (usize, usize) = match row_builder_parts(hir, n) {
        Some(found) => found,
        None => {
            return out;
        },
    };
    let ids: Vec<usize> = signal_map::pat_bindings(hir, pat);
    let list: Vec<usize> = hir.exprs_in(body, true);
    let mut i: usize = 0;
    while i < list.len()
        invariant
            i <= list.len(),
            hir.wf(),
            hir.has(pat),
            hir.has(body),
            ids@ == signal_map::binding_ids(*hir, pat),
            hir::all_below(list@, body + 1),
            diagnostics::found_all(out@) == reads_upto(*hir, pat, list@, i as int),
        decreases list.len() - i,
    {
        let finding: Option<Diagnostic> = check_read(hir, pat, &ids, list[i]);
        diagnostics::push_found(&mut out, finding);
        i = i + 1;
    }
    out
}

/// The read is of a field of the row's item, by its own name: `item.field`, or a
/// name that the row's pattern takes apart from the item.
pub proof fn field_reads_are_of_the_item(hir: Hir, pat: usize, n: usize)
    ensures
        field_read(hir, pat, n) matches Some(field) ==> match hir.kind(n) {
            Kind::Field { base, name } => field == name.name@ && (hir.local(
                hir.unwrapped(base),
            ) matches Some(id) && signal_map::binding_ids(hir, pat).contains(id)),
            Kind::Path { plain: _, segments, res: _ } => segments@.len() > 0 && field
                == segments@.last().name@ && (hir.local(n) matches Some(id)
                && signal_map::binding_ids(hir, pat).contains(id) && !(hir.kind(
                pat,
            ) matches Kind::Binding { name: _, id: whole, sub: _ } && whole == id)),
            _ => false,
        },
{
}

/// Such a read is reported exactly where a reactive parameter takes it and it is
/// no live signal itself; the report stands at the call and points at the read.
pub proof fn snapshots_of_fields_are_reported(
    hir: Hir,
    pat: usize,
    n: usize,
    field: Seq<char>,
    call: usize,
    index: int,
)
    requires
        field_read(hir, pat, n) == Some(field),
        hir.carried(n) == Some((call, index)),
        !hir.node(n).span.expanded(),
    ensures
        read_finding(hir, pat, n) is Some <==> hir.bounded(
            call,
            index,
            seq![Known::IntoSignalTrait, Known::IntoComputedTrait, Known::IntoSignalF32],
        ) && !live(hir, hir.node(n).ty),
        read_finding(hir, pat, n) matches Some(finding) ==> finding.span == hir.node(call).span && (
        finding.remarks[0] matches RemarkView::Label(span, text) && span == hir.node(n).span
            && text == "changes to `"@ + field
            + "` will not re-render the row unless the item's id changes"@),
{
    assert(reactive_bounds() =~= seq![
        Known::IntoSignalTrait,
        Known::IntoComputedTrait,
        Known::IntoSignalF32,
    ]);
}

} // verus!
