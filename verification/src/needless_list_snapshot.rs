//! `needless_list_snapshot`: a `snapshot()` consumed by an operation `List`
//! exposes directly.
//!
//! `list.len()`, `list.is_empty()` and `list.get(i)` need `nami`'s `Collection`
//! trait in scope. The `use` is never inserted: importing the trait into a module
//! re-resolves every `vec.get(i)` there to `Collection::get` on `Vec`. Where
//! `Collection` does not already resolve to the trait, the diagnostic is a `help`
//! naming the rewrite and the import.

use crate::diagnostics;
use crate::diagnostics::{Applicability, Diagnostic, DiagnosticView, RemarkView};
use crate::hir::{Hir, Kind, MatchSource, Namespace, Span, TyKind};
use crate::imports;
use crate::imports::{Bare, Module, Query};
use crate::known::Known;
use crate::lint::Lint;
use crate::list;
use crate::text;
use vstd::prelude::*;

verus! {

pub open spec fn copy_message() -> Seq<char> {
    "this `snapshot` copies the list to read what `List` exposes directly"@
}

pub open spec fn iter_message() -> Seq<char> {
    "`List` iterates directly; `snapshot()` before the loop is spelled out"@
}

/// `Option<&T>` over an element, not a slice.
pub open spec fn option_ref(hir: Hir, t: usize) -> bool {
    match hir.ty_arg(t, Known::OptionTy, 0) {
        Some(arg) => match hir.ty(arg).kind {
            TyKind::Ref { inner, mutable: _ } => !(hir.ty(inner).kind is Slice),
            _ => false,
        },
        None => false,
    }
}

/// Whether the type is `Option<&T>` over an element: the shape `Vec::get` and
/// `Vec::first` hand `.cloned()`. A ranged `get` yields `Option<&[T]>`, which
/// `Collection::get` cannot spell.
pub fn is_option_ref(hir: &Hir, t: usize) -> (r: bool)
    requires
        hir.wf(),
        t < hir.types.len(),
    ensures
        r == option_ref(*hir, t),
{
    match hir.adt_arg(t, Known::OptionTy, 0) {
        Some(arg) => {
            proof {
                assert(hir.types@[arg as int].below(arg as int));
            }
            match &hir.types[arg].kind {
                TyKind::Ref { inner, .. } => match &hir.types[*inner].kind {
                    TyKind::Slice { .. } => false,
                    _ => true,
                },
                _ => false,
            }
        },
        None => false,
    }
}

/// The list and the index of `x.snapshot().get(i)` or `x.snapshot().first()`.
pub open spec fn element_of(hir: Hir, n: usize) -> Option<(usize, Option<usize>)> {
    match hir.kind(n) {
        Kind::MethodCall { name, receiver, args } => match list::snapshot_of(hir, receiver) {
            Some(list) => if !option_ref(hir, hir.node(n).ty) {
                None
            } else if name.name@ == "first"@ && args@.len() == 0 {
                Some((list, None))
            } else if name.name@ == "get"@ && args@.len() == 1 {
                Some((list, Some(args@[0])))
            } else {
                None
            },
            None => None,
        },
        _ => None,
    }
}

/// `(x, index)`, where the expression is `x.snapshot().get(i)` or
/// `x.snapshot().first()` returning `Option<&T>`; no index for `first`.
pub fn snapshot_option_ref(hir: &Hir, n: usize) -> (r: Option<(usize, Option<usize>)>)
    requires
        hir.wf(),
        hir.has(n),
    ensures
        r == element_of(*hir, n),
        r matches Some((list, index)) ==> list < n && (index matches Some(i) ==> i < n),
{
    proof {
        assert(hir.node_wf(n));
    }
    match &hir.nodes[n].kind {
        Kind::MethodCall { name, receiver, args } => {
            let list: usize = match list::snapshot_receiver(hir, *receiver) {
                Some(list) => list,
                None => {
                    return None;
                },
            };
            if !is_option_ref(hir, hir.nodes[n].ty) {
                None
            } else if text::str_eq(name.name.as_str(), "first") && args.len() == 0 {
                Some((list, None))
            } else if text::str_eq(name.name.as_str(), "get") && args.len() == 1 {
                Some((list, Some(args[0])))
            } else {
                None
            }
        },
        _ => None,
    }
}

/// `Collection` stands for the trait at the expression.
pub open spec fn collection_at(
    hir: Hir,
    module: Module,
    collection: Option<usize>,
    n: usize,
) -> bool {
    collection is Some && imports::bare_meaning(
        hir,
        module,
        n,
        hir.node(n).span.lo,
        "Collection"@,
        Namespace::Type,
        collection,
    ) is Same
}

/// Whether `Collection` resolves to the `nami_core` trait at the expression: the
/// only case where `list.len()`, `list.is_empty()` and `list.get(i)` spell the
/// same methods.
pub fn collection_in_scope(hir: &Hir, module: &Module, collection: Option<usize>, n: usize) -> (r:
    bool)
    requires
        hir.wf(),
        hir.has(n),
    ensures
        r == collection_at(*hir, *module, collection, n),
{
    if collection.is_none() {
        return false;
    }
    let query: Query = Query {
        pos: hir.nodes[n].span.lo,
        name: "Collection",
        ns: Namespace::Type,
        target: collection,
    };
    match imports::bare_status(hir, module, n, &query) {
        Bare::Same => true,
        _ => false,
    }
}

/// What is said of an expression with that replacement.
pub open spec fn report_of(
    hir: Hir,
    module: Module,
    collection: Option<usize>,
    n: usize,
    message: Seq<char>,
    code: Seq<char>,
    needs_collection: bool,
    applicability: Applicability,
) -> DiagnosticView {
    let span = hir.node(n).span;
    DiagnosticView::bare(Lint::NeedlessListSnapshot, span, message).with(
        if needs_collection && !collection_at(hir, module, collection, n) {
            RemarkView::Help(
                "use the `List` method — `"@ + code
                    + "` needs `use waterui::reactive::collection::Collection;` in scope"@,
            )
        } else {
            RemarkView::Suggestion {
                label: "use the `List` method"@,
                span,
                code,
                applicability,
            }
        },
    )
}

fn report(
    hir: &Hir,
    module: &Module,
    collection: Option<usize>,
    n: usize,
    message: &str,
    code: String,
    needs_collection: bool,
    applicability: Applicability,
) -> (r: Diagnostic)
    requires
        hir.wf(),
        hir.has(n),
    ensures
        r@ == report_of(
            *hir,
            *module,
            collection,
            n,
            message@,
            code@,
            needs_collection,
            applicability,
        ),
{
    let span: Span = hir.nodes[n].span;
    let mut finding: Diagnostic = Diagnostic::bare(Lint::NeedlessListSnapshot, span, message);
    if needs_collection && !collection_in_scope(hir, module, collection, n) {
        finding.help(
            text::cat3(
                "use the `List` method — `",
                code.as_str(),
                "` needs `use waterui::reactive::collection::Collection;` in scope",
            ),
        );
    } else {
        finding.span_suggestion(span, "use the `List` method", code, applicability);
    }
    finding
}

/// What a desugared `for` loop iterates over.
pub open spec fn loop_head(hir: Hir, n: usize) -> Option<usize> {
    match hir.kind(n) {
        Kind::DropTemps { inner } => match hir.kind(inner) {
            Kind::Match { scrutinee, arms, source } => match hir.kind(scrutinee) {
                Kind::Call { func: _, args } => if source is ForLoop && arms@.len() == 1
                    && args@.len() == 1 {
                    Some(args@[0])
                } else {
                    None
                },
                _ => None,
            },
            _ => None,
        },
        _ => None,
    }
}

/// What a `for` loop iterates over, where the expression is the desugared loop.
pub fn for_loop_arg(hir: &Hir, n: usize) -> (r: Option<usize>)
    requires
        hir.wf(),
        hir.has(n),
    ensures
        r == loop_head(*hir, n),
        r matches Some(arg) ==> arg < n,
{
    proof {
        assert(hir.node_wf(n));
    }
    match &hir.nodes[n].kind {
        Kind::DropTemps { inner } => {
            proof {
                assert(hir.node_wf(*inner));
            }
            match &hir.nodes[*inner].kind {
                Kind::Match { scrutinee, arms, source } => {
                    proof {
                        assert(hir.node_wf(*scrutinee));
                    }
                    match &hir.nodes[*scrutinee].kind {
                        Kind::Call { args, .. } => if *source == MatchSource::ForLoop && arms.len()
                            == 1 && args.len() == 1 {
                            Some(args[0])
                        } else {
                            None
                        },
                        _ => None,
                    }
                },
                _ => None,
            }
        },
        _ => None,
    }
}

/// What is left of a full applicability once the list is spelled.
pub open spec fn listed(hir: Hir, list: usize) -> Applicability {
    hir.after_source(list, Applicability::MachineApplicable)
}

/// What is said of a `for` loop over a snapshot.
pub open spec fn loop_finding(
    hir: Hir,
    module: Module,
    collection: Option<usize>,
    arg: usize,
) -> Option<DiagnosticView> {
    match list::snapshot_of(hir, arg) {
        Some(list) => Some(
            report_of(
                hir,
                module,
                collection,
                arg,
                iter_message(),
                hir.source_or_dots(list) + ".iter()"@,
                false,
                listed(hir, list),
            ),
        ),
        None => None,
    }
}

/// What is said of `x.snapshot().get(i).cloned()`.
pub open spec fn cloned_finding(
    hir: Hir,
    module: Module,
    collection: Option<usize>,
    n: usize,
    receiver: usize,
) -> Option<DiagnosticView> {
    match element_of(hir, receiver) {
        Some((list, index)) => Some(
            report_of(
                hir,
                module,
                collection,
                n,
                copy_message(),
                hir.source_or_dots(list) + ".get("@ + (match index {
                    Some(arg) => hir.source_or_dots(arg),
                    None => "0"@,
                }) + ")"@,
                true,
                match index {
                    Some(arg) => hir.after_source(arg, listed(hir, list)),
                    None => listed(hir, list),
                },
            ),
        ),
        None => None,
    }
}

/// The `List` method for a method of the snapshot, and whether it comes from
/// `Collection`.
pub open spec fn list_method(name: Seq<char>) -> Option<(Seq<char>, bool)> {
    if name == "len"@ || name == "is_empty"@ {
        Some((name, true))
    } else if name == "into_iter"@ {
        Some(("iter"@, false))
    } else {
        None
    }
}

/// What is said of a method call on a snapshot.
pub open spec fn method_finding(
    hir: Hir,
    module: Module,
    collection: Option<usize>,
    n: usize,
    name: Seq<char>,
    receiver: usize,
) -> Option<DiagnosticView> {
    match (list::snapshot_of(hir, receiver), list_method(name)) {
        (Some(list), Some((method, needs_collection))) => Some(
            report_of(
                hir,
                module,
                collection,
                n,
                if needs_collection {
                    copy_message()
                } else {
                    iter_message()
                },
                hir.source_or_dots(list) + "."@ + method + "()"@,
                needs_collection,
                listed(hir, list),
            ),
        ),
        _ => None,
    }
}

/// What is said of an expression.
pub open spec fn finding_at(hir: Hir, module: Module, collection: Option<usize>, n: usize) -> Option<
    DiagnosticView,
> {
    match loop_head(hir, n) {
        Some(arg) => loop_finding(hir, module, collection, arg),
        None => match hir.kind(n) {
            Kind::MethodCall { name, receiver, args } => if hir.node(n).span.expanded()
                || args@.len() > 0 {
                None
            } else if name.name@ == "cloned"@ {
                cloned_finding(hir, module, collection, n, receiver)
            } else {
                method_finding(hir, module, collection, n, name.name@, receiver)
            },
            _ => None,
        },
    }
}

fn check_loop(hir: &Hir, module: &Module, collection: Option<usize>, arg: usize) -> (r: Option<
    Diagnostic,
>)
    requires
        hir.wf(),
        hir.has(arg),
    ensures
        diagnostics::found(r) == loop_finding(*hir, *module, collection, arg),
{
    let list: usize = match list::snapshot_receiver(hir, arg) {
        Some(list) => list,
        None => {
            return None;
        },
    };
    let (source, applicability) = hir.snippet_with_applicability(
        list,
        Applicability::MachineApplicable,
    );
    Some(
        report(
            hir,
            module,
            collection,
            arg,
            "`List` iterates directly; `snapshot()` before the loop is spelled out",
            text::cat(source.as_str(), ".iter()"),
            false,
            applicability,
        ),
    )
}

fn check_cloned(
    hir: &Hir,
    module: &Module,
    collection: Option<usize>,
    n: usize,
    receiver: usize,
) -> (r: Option<Diagnostic>)
    requires
        hir.wf(),
        hir.has(n),
        hir.has(receiver),
    ensures
        diagnostics::found(r) == cloned_finding(*hir, *module, collection, n, receiver),
{
    let (list, index) = match snapshot_option_ref(hir, receiver) {
        Some(found) => found,
        None => {
            return None;
        },
    };
    let (source, left) = hir.snippet_with_applicability(list, Applicability::MachineApplicable);
    let (arg, applicability): (String, Applicability) = match index {
        Some(index) => hir.snippet_with_applicability(index, left),
        None => ("0".to_owned(), left),
    };
    Some(
        report(
            hir,
            module,
            collection,
            n,
            "this `snapshot` copies the list to read what `List` exposes directly",
            text::cat4(source.as_str(), ".get(", arg.as_str(), ")"),
            true,
            applicability,
        ),
    )
}

fn check_method(
    hir: &Hir,
    module: &Module,
    collection: Option<usize>,
    n: usize,
    name: &str,
    receiver: usize,
) -> (r: Option<Diagnostic>)
    requires
        hir.wf(),
        hir.has(n),
        hir.has(receiver),
    ensures
        diagnostics::found(r) == method_finding(*hir, *module, collection, n, name@, receiver),
{
    let list: usize = match list::snapshot_receiver(hir, receiver) {
        Some(list) => list,
        None => {
            return None;
        },
    };
    let reads: bool = text::str_eq(name, "len") || text::str_eq(name, "is_empty");
    if !reads && !text::str_eq(name, "into_iter") {
        return None;
    }
    let (source, applicability) = hir.snippet_with_applicability(
        list,
        Applicability::MachineApplicable,
    );
    let method: &str = if reads {
        name
    } else {
        "iter"
    };
    Some(
        report(
            hir,
            module,
            collection,
            n,
            if reads {
                "this `snapshot` copies the list to read what `List` exposes directly"
            } else {
                "`List` iterates directly; `snapshot()` before the loop is spelled out"
            },
            text::cat4(source.as_str(), ".", method, "()"),
            reads,
            applicability,
        ),
    )
}

/// Flags a `list.snapshot()` whose result feeds exactly one operation `List`
/// exposes itself: `.len()`, `.is_empty()`, `.get(i).cloned()`,
/// `.first().cloned()`, `.into_iter()`, or a `for` loop head. A bound, mutated,
/// returned, or otherwise retained snapshot is the reader holding a stable copy
/// on purpose and stays silent.
pub fn check_expr(hir: &Hir, module: &Module, collection: Option<usize>, n: usize) -> (r: Option<
    Diagnostic,
>)
    requires
        hir.wf(),
        hir.has(n),
    ensures
        diagnostics::found(r) == finding_at(*hir, *module, collection, n),
{
    // A `for` loop desugars into a `match` under an expansion mark, so it is
    // recognized before the expansion guard; the head keeps its written span.
    if let Some(arg) = for_loop_arg(hir, n) {
        return check_loop(hir, module, collection, arg);
    }
    if hir.nodes[n].span.from_expansion() {
        return None;
    }
    proof {
        assert(hir.node_wf(n));
    }
    match &hir.nodes[n].kind {
        Kind::MethodCall { name, receiver, args } => {
            if args.len() > 0 {
                return None;
            }
            if text::str_eq(name.name.as_str(), "cloned") {
                check_cloned(hir, module, collection, n, *receiver)
            } else {
                check_method(hir, module, collection, n, name.name.as_str(), *receiver)
            }
        },
        _ => None,
    }
}

/// What is read of a snapshot: the element at a place, the number of elements,
/// whether there are any, or all of them in turn.
pub ghost enum Reading {
    /// The element at the place that the operand gives; the first where there is
    /// no operand.
    Element(Option<usize>),
    Len,
    IsEmpty,
    Each,
}

/// The expression reads so much of the snapshot of `list`.
pub open spec fn reads_snapshot(hir: Hir, n: usize, list: usize, reading: Reading) -> bool {
    &&& hir.kind(n) matches Kind::MethodCall { name, receiver, args }
    &&& args@.len() == 0
    &&& match reading {
        Reading::Element(index) => name.name@ == "cloned"@ && (hir.kind(
            receiver,
        ) matches Kind::MethodCall { name: element, receiver: copy, args: place }
            && list::snapshot_of(hir, copy) == Some(list) && match index {
            Some(i) => element.name@ == "get"@ && place@.len() == 1 && place@[0] == i,
            None => element.name@ == "first"@ && place@.len() == 0,
        }),
        Reading::Len => name.name@ == "len"@ && list::snapshot_of(hir, receiver) == Some(list),
        Reading::IsEmpty => name.name@ == "is_empty"@ && list::snapshot_of(hir, receiver) == Some(
            list,
        ),
        Reading::Each => name.name@ == "into_iter"@ && list::snapshot_of(hir, receiver) == Some(
            list,
        ),
    }
}

/// How the list itself is read so.
pub open spec fn read_of_list(hir: Hir, list: usize, reading: Reading) -> Seq<char> {
    hir.source_or_dots(list) + (match reading {
        Reading::Element(Some(i)) => ".get("@ + hir.source_or_dots(i) + ")"@,
        Reading::Element(None) => ".get(0)"@,
        Reading::Len => ".len()"@,
        Reading::IsEmpty => ".is_empty()"@,
        Reading::Each => ".iter()"@,
    })
}

/// What is proposed reads of the list what was read of its snapshot.
pub proof fn list_reads_stay_the_same(
    hir: Hir,
    module: Module,
    collection: Option<usize>,
    n: usize,
) -> (r: (usize, Reading))
    requires
        finding_at(hir, module, collection, n) is Some,
    ensures
        ({
            let (list, reading) = r;
            let finding = finding_at(hir, module, collection, n)->0;
            &&& finding.remarks.len() == 1
            &&& finding.remarks[0] matches RemarkView::Suggestion {
                label: _,
                span: _,
                code,
                applicability: _,
            } ==> code == read_of_list(hir, list, reading)
            &&& match loop_head(hir, n) {
                Some(arg) => list::snapshot_of(hir, arg) == Some(list) && reading is Each,
                None => reads_snapshot(hir, n, list, reading),
            }
        }),
{
    reveal_strlit(".get(");
    reveal_strlit("0");
    reveal_strlit(")");
    reveal_strlit(".get(0)");
    reveal_strlit(".");
    reveal_strlit("len");
    reveal_strlit("is_empty");
    reveal_strlit("iter");
    reveal_strlit("()");
    reveal_strlit(".len()");
    reveal_strlit(".is_empty()");
    reveal_strlit(".iter()");
    assert(".get("@ + "0"@ + ")"@ =~= ".get(0)"@);
    assert("."@ + "len"@ + "()"@ =~= ".len()"@);
    assert("."@ + "is_empty"@ + "()"@ =~= ".is_empty()"@);
    assert("."@ + "iter"@ + "()"@ =~= ".iter()"@);
    match loop_head(hir, n) {
        Some(arg) => (list::snapshot_of(hir, arg)->0, Reading::Each),
        None => match hir.kind(n) {
            Kind::MethodCall { name, receiver, args } => if name.name@ == "cloned"@ {
                let (list, index) = element_of(hir, receiver)->0;
                let source = hir.source_or_dots(list);
                match index {
                    Some(i) => {
                        let text = hir.source_or_dots(i);
                        assert(source + ".get("@ + text + ")"@ =~= source + (".get("@ + text
                            + ")"@));
                    },
                    None => {
                        assert(source + ".get("@ + "0"@ + ")"@ =~= source + ".get(0)"@);
                    },
                }
                (list, Reading::Element(index))
            } else {
                let list = list::snapshot_of(hir, receiver)->0;
                let source = hir.source_or_dots(list);
                assert(source + "."@ + "len"@ + "()"@ =~= source + ".len()"@);
                assert(source + "."@ + "is_empty"@ + "()"@ =~= source + ".is_empty()"@);
                assert(source + "."@ + "iter"@ + "()"@ =~= source + ".iter()"@);
                (
                    list,
                    if name.name@ == "len"@ {
                        Reading::Len
                    } else if name.name@ == "is_empty"@ {
                        Reading::IsEmpty
                    } else {
                        Reading::Each
                    },
                )
            },
            _ => (0, Reading::Each),
        },
    }
}

} // verus!
