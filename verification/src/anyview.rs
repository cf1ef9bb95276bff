//! Shared machinery for the `AnyView` lints: recognizing the calls that produce
//! an `AnyView` and the value they erase.

use crate::hir::{DefKind, Hir, Kind, Res};
use crate::known::Known;
use vstd::prelude::*;

verus! {

/// The tail of a block expression.
pub open spec fn tail_of(hir: Hir, n: usize) -> Option<usize> {
    match hir.kind(n) {
        Kind::BlockExpr { block } => hir.block_tail(block),
        _ => None,
    }
}

/// The expression without the drop-temps and blocks around it.
pub open spec fn peeled(hir: Hir, n: usize) -> usize
    decreases n,
{
    match (hir.kind(n), tail_of(hir, n)) {
        (Kind::DropTemps { inner }, _) => if inner < n {
            peeled(hir, inner)
        } else {
            n
        },
        (_, Some(tail)) => if tail < n {
            peeled(hir, tail)
        } else {
            n
        },
        _ => n,
    }
}

/// The expression with drop-temps and block wrappers removed: the value that
/// actually occupies the position.
pub fn peel(hir: &Hir, n: usize) -> (r: usize)
    requires
        hir.wf(),
        hir.has(n),
    ensures
        r == peeled(*hir, n),
        r <= n,
    decreases n,
{
    proof {
        assert(hir.node_wf(n));
    }
    match &hir.nodes[n].kind {
        Kind::DropTemps { inner } => peel(hir, *inner),
        Kind::BlockExpr { block } => {
            proof {
                assert(hir.node_wf(*block));
            }
            match &hir.nodes[*block].kind {
                Kind::Block { tail: Some(tail), .. } => peel(hir, *tail),
                _ => n,
            }
        },
        _ => n,
    }
}

/// The node around `n`, past the drop-temps and, if `blocks`, the blocks that
/// it is the tail of; and the node just below it.
pub open spec fn holder(hir: Hir, n: usize, blocks: bool) -> Option<(usize, usize)>
    decreases hir.nodes@.len() - n,
{
    match hir.up(n) {
        Some(p) => match hir.kind(p) {
            Kind::DropTemps { inner: _ } => holder(hir, p, blocks),
            Kind::Block { stmts: _, tail } => if blocks && tail == Some(n) {
                holder(hir, p, blocks)
            } else {
                None
            },
            Kind::BlockExpr { block } => if blocks && block == n {
                holder(hir, p, blocks)
            } else {
                Some((p, n))
            },
            _ => if hir.kind(p).is_expr() {
                Some((p, n))
            } else {
                None
            },
        },
        None => None,
    }
}

/// The expression around `n`, past drop-temps and the blocks it is the tail of,
/// and the node just below it.
pub fn held_by(hir: &Hir, n: usize, blocks: bool) -> (r: Option<(usize, usize)>)
    requires
        hir.wf(),
        hir.has(n),
    ensures
        r == holder(*hir, n, blocks),
        r matches Some((p, u)) ==> p < hir.nodes.len() && u < p,
    decreases hir.nodes.len() - n,
{
    let p: usize = match hir.parent(n) {
        Some(p) => p,
        None => {
            return None;
        },
    };
    match &hir.nodes[p].kind {
        Kind::DropTemps { .. } => held_by(hir, p, blocks),
        Kind::Block { tail, .. } => {
            let own: bool = match tail {
                Some(tail) => *tail == n,
                None => false,
            };
            if blocks && own {
                held_by(hir, p, blocks)
            } else {
                None
            }
        },
        Kind::BlockExpr { block } => if blocks && *block == n {
            held_by(hir, p, blocks)
        } else {
            Some((p, n))
        },
        _ => if hir.nodes[p].kind.expr() {
            Some((p, n))
        } else {
            None
        },
    }
}

/// The call runs an associated function that its callee names in full.
pub open spec fn calls_assoc_fn(hir: Hir, func: usize) -> bool {
    match hir.kind(func) {
        Kind::Path { plain: _, segments: _, res: Res::Def { def: _, kind } } => kind is AssocFn,
        _ => false,
    }
}

fn is_assoc_fn(hir: &Hir, func: usize) -> (r: bool)
    requires
        hir.has(func),
    ensures
        r == calls_assoc_fn(*hir, func),
{
    match &hir.nodes[func].kind {
        Kind::Path { res: Res::Def { kind, .. }, .. } => *kind == DefKind::AssocFn,
        _ => false,
    }
}

/// The view that the expression erases.
pub open spec fn erased(hir: Hir, n: usize) -> Option<usize> {
    if hir.node(n).span.expanded() || !hir.calls(n, seq![Known::AnyViewNew, Known::AnyViewExt]) {
        None
    } else {
        match hir.kind(n) {
            Kind::Call { func, args } => if args@.len() == 1 && calls_assoc_fn(hir, func) {
                Some(args@[0])
            } else {
                None
            },
            Kind::MethodCall { name: _, receiver, args } => if args@.len() == 0 {
                Some(receiver)
            } else {
                None
            },
            _ => None,
        }
    }
}

/// The view the expression erases, where it is exactly such a call: the argument
/// of `AnyView::new(v)` or the receiver of `v.anyview()`/`ViewExt::anyview(v)`.
pub fn erased_inner(hir: &Hir, n: usize) -> (r: Option<usize>)
    requires
        hir.wf(),
        hir.has(n),
    ensures
        r == erased(*hir, n),
        r matches Some(inner) ==> inner < n,
{
    if hir.nodes[n].span.from_expansion() || !hir.is_call_to(
        n,
        &[Known::AnyViewNew, Known::AnyViewExt],
    ) {
        return None;
    }
    proof {
        assert(hir.node_wf(n));
    }
    match &hir.nodes[n].kind {
        Kind::Call { func, args } => if args.len() == 1 && is_assoc_fn(hir, *func) {
            Some(args[0])
        } else {
            None
        },
        Kind::MethodCall { receiver, args, .. } => if args.len() == 0 {
            Some(*receiver)
        } else {
            None
        },
        _ => None,
    }
}

/// The type is `AnyView` behind any references.
pub open spec fn any_view(hir: Hir, t: usize) -> bool {
    hir.ty_is(hir.referent(t), Known::AnyView)
}

/// Whether the type, references peeled, is `AnyView`: the value an erasure call
/// wraps is already erased. Those calls belong to `redundant_anyview`.
pub fn is_anyview(hir: &Hir, t: usize) -> (r: bool)
    requires
        hir.wf(),
        t < hir.types.len(),
    ensures
        r == any_view(*hir, t),
{
    hir.is_adt(hir.peel_refs(t), Known::AnyView)
}

/// An erasure is `AnyView::new(x)` or `x.anyview()`, written there, and what it
/// erases is `x`.
pub proof fn erasures_are_recognized(hir: Hir, n: usize)
    ensures
        erased(hir, n) matches Some(inner) ==> {
            &&& !hir.node(n).span.expanded()
            &&& hir.calls(n, seq![Known::AnyViewNew, Known::AnyViewExt])
            &&& match hir.kind(n) {
                Kind::Call { func: _, args } => args@.len() == 1 && args@[0] == inner,
                Kind::MethodCall { name: _, receiver, args } => args@.len() == 0 && receiver
                    == inner,
                _ => false,
            }
        },
        hir.kind(n) matches Kind::MethodCall { name: _, receiver, args } ==> (args@.len() == 0
            && !hir.node(n).span.expanded() && hir.calls(
            n,
            seq![Known::AnyViewNew, Known::AnyViewExt],
        ) ==> erased(hir, n) == Some(receiver)),
{
}

/// A block is looked through to its tail, and what is no block is left as it is.
pub proof fn blocks_are_looked_through(hir: Hir, n: usize)
    ensures
        hir.kind(n) matches Kind::DropTemps { inner } ==> (inner < n ==> peeled(hir, n) == peeled(
            hir,
            inner,
        )),
        hir.kind(n) matches Kind::BlockExpr { block } ==> (hir.kind(block) matches Kind::Block {
            stmts: _,
            tail: Some(tail),
        } ==> (tail < n ==> peeled(hir, n) == peeled(hir, tail))),
        !(hir.kind(n) is BlockExpr) && !(hir.kind(n) is DropTemps) ==> peeled(hir, n) == n,
{
}

/// `AnyView::new(x)` erases `x` wherever the callee is named as the associated
/// function.
pub proof fn constructions_are_erasures(hir: Hir, n: usize, func: usize, args: Vec<usize>)
    requires
        hir.kind(n) == (Kind::Call { func, args }),
        args@.len() == 1,
        !hir.node(n).span.expanded(),
        hir.calls(n, seq![Known::AnyViewNew, Known::AnyViewExt]),
    ensures
        erased(hir, n) == Some(args@[0]) <==> (hir.kind(func) matches Kind::Path {
            plain: _,
            segments: _,
            res: Res::Def { def: _, kind },
        } && kind is AssocFn),
{
}

} // verus!
