//! `nami`'s `data::collection::List`: call-shape helpers shared by the lints that
//! match its `snapshot()` and `replace()` calls.

use crate::hir::{Hir, Kind};
use crate::known::Known;
use crate::text;
use vstd::prelude::*;

verus! {

/// The list that the expression takes a snapshot of.
pub open spec fn snapshot_of(hir: Hir, n: usize) -> Option<usize> {
    match hir.kind(n) {
        Kind::MethodCall { name, receiver, args } => if args@.len() == 0 && !hir.node(
            n,
        ).span.expanded() && name.name@ == "snapshot"@ && hir.calls_item(n, Known::ListSnapshot) {
            Some(receiver)
        } else {
            None
        },
        _ => None,
    }
}

/// `x`, where the expression is `x.snapshot()` resolving to `List::snapshot`.
pub fn snapshot_receiver(hir: &Hir, n: usize) -> (r: Option<usize>)
    requires
        hir.wf(),
        hir.has(n),
    ensures
        r == snapshot_of(*hir, n),
        r matches Some(list) ==> list < n,
{
    proof {
        assert(hir.node_wf(n));
    }
    match &hir.nodes[n].kind {
        Kind::MethodCall { name, receiver, args } => if args.len() == 0
            && !hir.nodes[n].span.from_expansion() && text::str_eq(name.name.as_str(), "snapshot")
            && hir.is_call_of(n, Known::ListSnapshot) {
            Some(*receiver)
        } else {
            None
        },
        _ => None,
    }
}

/// The list whose contents the expression replaces, and by what.
pub open spec fn replacement_of(hir: Hir, n: usize) -> Option<(usize, usize)> {
    match hir.kind(n) {
        Kind::MethodCall { name, receiver, args } => if args@.len() == 1 && !hir.node(
            n,
        ).span.expanded() && name.name@ == "replace"@ && hir.calls_item(n, Known::ListReplace) {
            Some((receiver, args@[0]))
        } else {
            None
        },
        _ => None,
    }
}

/// `(x, arg)`, where the expression is `x.replace(arg)` resolving to
/// `List::replace`.
pub fn replace_call(hir: &Hir, n: usize) -> (r: Option<(usize, usize)>)
    requires
        hir.wf(),
        hir.has(n),
    ensures
        r == replacement_of(*hir, n),
        r matches Some((list, arg)) ==> list < n && arg < n,
{
    proof {
        assert(hir.node_wf(n));
    }
    match &hir.nodes[n].kind {
        Kind::MethodCall { name, receiver, args } => if args.len() == 1
            && !hir.nodes[n].span.from_expansion() && text::str_eq(name.name.as_str(), "replace")
            && hir.is_call_of(n, Known::ListReplace) {
            Some((*receiver, args[0]))
        } else {
            None
        },
        _ => None,
    }
}

} // verus!
