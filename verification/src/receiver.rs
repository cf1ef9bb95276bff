//! Receivers: whether taking a call away would move a place that must keep its
//! value.

use crate::hir::{Hir, Kind};
use vstd::prelude::*;

verus! {

/// The node lies somewhere inside `p`.
pub open spec fn under(hir: Hir, n: usize, p: usize) -> bool
    decreases hir.nodes@.len() - n,
{
    match hir.up(n) {
        Some(q) => q == p || under(hir, q, p),
        None => false,
    }
}

fn is_under(hir: &Hir, n: usize, p: usize) -> (r: bool)
    requires
        hir.wf(),
        hir.has(n),
    ensures
        r == under(*hir, n, p),
    decreases hir.nodes@.len() - n,
{
    match hir.parent(n) {
        Some(q) => q == p || is_under(hir, q, p),
        None => false,
    }
}

/// The node binds the local.
pub open spec fn binds(hir: Hir, n: usize, local: usize) -> bool {
    match hir.kind(n) {
        Kind::Binding { name: _, id, sub: _ } => id == local,
        _ => false,
    }
}

/// The local is bound inside `p`.
pub open spec fn bound_inside(hir: Hir, p: usize, local: usize) -> bool {
    exists|b: usize| hir.has(b) && #[trigger] binds(hir, b, local) && under(hir, b, p)
}

fn is_bound_inside(hir: &Hir, p: usize, local: usize) -> (r: bool)
    requires
        hir.wf(),
    ensures
        r == bound_inside(*hir, p, local),
{
    let mut b: usize = 0;
    while b < hir.nodes.len()
        invariant
            hir.wf(),
            b <= hir.nodes.len(),
            forall|k: usize| k < b ==> !(#[trigger] binds(*hir, k, local) && under(*hir, k, p)),
        decreases hir.nodes.len() - b,
    {
        let own: bool = match &hir.nodes[b].kind {
            Kind::Binding { id, .. } => *id == local,
            _ => false,
        };
        assert(own == binds(*hir, b, local));
        if own && is_under(hir, b, p) {
            return true;
        }
        b = b + 1;
    }
    false
}

/// A loop around the node does not bind the local, so the next round reads it
/// again.
pub open spec fn read_next_round(hir: Hir, n: usize, local: usize) -> bool
    decreases hir.nodes@.len() - n,
{
    match hir.up(n) {
        Some(p) => (hir.kind(p) is Loop && !bound_inside(hir, p, local)) || read_next_round(
            hir,
            p,
            local,
        ),
        None => false,
    }
}

fn is_read_next_round(hir: &Hir, n: usize, local: usize) -> (r: bool)
    requires
        hir.wf(),
        hir.has(n),
    ensures
        r == read_next_round(*hir, n, local),
    decreases hir.nodes@.len() - n,
{
    match hir.parent(n) {
        Some(p) => {
            let outside: bool = match &hir.nodes[p].kind {
                Kind::Loop { .. } => !is_bound_inside(hir, p, local),
                _ => false,
            };
            outside || is_read_next_round(hir, p, local)
        },
        None => false,
    }
}

/// The local is read behind the node: the nodes stand in the order in which the
/// code is read, the parts of an expression before the expression.
pub open spec fn read_later(hir: Hir, n: usize, local: usize) -> bool {
    exists|m: usize| n < m && hir.has(m) && #[trigger] hir.local(m) == Some(local)
}

fn is_read_later(hir: &Hir, n: usize, local: usize) -> (r: bool)
    requires
        hir.wf(),
        hir.has(n),
    ensures
        r == read_later(*hir, n, local),
{
    let mut m: usize = n;
    while m < hir.nodes.len() - 1
        invariant
            n <= m < hir.nodes.len(),
            hir.wf(),
            forall|k: usize| n < k <= m ==> #[trigger] hir.local(k) != Some(local),
        decreases hir.nodes.len() - m,
    {
        m = m + 1;
        if let Some(id) = hir.res_local(m) {
            if id == local {
                return true;
            }
        }
    }
    false
}

/// The receiver of `n` is a place that must not be moved: a local that is read
/// again, further on or in the next round of a loop, or any other place (a field,
/// an index, a dereference).
pub open spec fn keeps_its_value(hir: Hir, n: usize, receiver: usize) -> bool {
    match hir.local(receiver) {
        Some(local) => read_later(hir, n, local) || read_next_round(hir, n, local),
        None => hir.node(receiver).place,
    }
}

/// The receiver of `n` is cloned once the call `n` is taken away, where what is
/// left moves it.
pub open spec fn cloned(hir: Hir, n: usize, receiver: usize, moves: bool) -> bool {
    let place = hir.undropped(receiver);
    moves && (hir.node(place).derefs > 0 || keeps_its_value(hir, n, place))
}

/// Whether the receiver of `n` needs a `.clone()` once the call `n` is taken
/// away: what is left `moves` it, and it is a place that must not be moved, or is
/// reached through a dereference.
pub fn receiver_needs_clone(hir: &Hir, n: usize, receiver: usize, moves: bool) -> (r: bool)
    requires
        hir.wf(),
        hir.has(n),
        hir.has(receiver),
    ensures
        r == cloned(*hir, n, receiver, moves),
{
    if !moves {
        return false;
    }
    let place: usize = hir.peel_drop_temps(receiver);
    if hir.nodes[place].derefs > 0 {
        return true;
    }
    match hir.res_local(place) {
        Some(local) => is_read_later(hir, n, local) || is_read_next_round(hir, n, local),
        None => hir.nodes[place].place,
    }
}

/// A receiver is cloned exactly where it is moved and still needed: where it
/// stands behind a dereference, where a later expression reads the same local,
/// where a loop comes back to the read, or where it is a place that keeps its
/// value.
pub proof fn needed_receivers_are_cloned(hir: Hir, n: usize, receiver: usize, local: usize, m: usize)
    requires
        hir.undropped(receiver) == receiver,
    ensures
        !cloned(hir, n, receiver, false),
        hir.node(receiver).derefs > 0 ==> cloned(hir, n, receiver, true),
        hir.local(receiver) == Some(local) && n < m && hir.has(m) && hir.local(m) == Some(local)
            ==> cloned(hir, n, receiver, true),
        hir.local(receiver) is None && hir.node(receiver).derefs == 0 ==> cloned(
            hir,
            n,
            receiver,
            true,
        ) == hir.node(receiver).place,
        hir.local(receiver) == Some(local) && hir.node(receiver).derefs == 0 && (forall|k: usize|
            n < k && hir.has(k) ==> #[trigger] hir.local(k) != Some(local)) && !read_next_round(
            hir,
            n,
            local,
        ) ==> !cloned(hir, n, receiver, true),
{
    if hir.local(receiver) == Some(local) && n < m && hir.has(m) && hir.local(m) == Some(local) {
        assert(read_later(hir, n, local));
    }
}

proof fn lemma_read_next_round(hir: Hir, n: usize, p: usize, local: usize)
    requires
        under(hir, n, p),
        hir.kind(p) is Loop,
        forall|b: usize|
            hir.has(b) && under(hir, b, p) ==> !((#[trigger] hir.kind(b)) matches Kind::Binding {
                name: _,
                id,
                sub: _,
            } && id == local),
    ensures
        read_next_round(hir, n, local),
    decreases hir.nodes@.len() - n,
{
    let q = hir.up(n)->0;
    if q == p {
        assert forall|b: usize| hir.has(b) && under(hir, b, p) implies !(#[trigger] binds(
            hir,
            b,
            local,
        )) by {
            assert(hir.kind(b) == hir.kind(b));
        }
    } else {
        lemma_read_next_round(hir, q, p, local);
    }
}

/// A local from outside of a loop is read again in the next round, so a call in
/// the loop takes it as a clone.
pub proof fn loops_keep_their_locals(
    hir: Hir,
    n: usize,
    p: usize,
    receiver: usize,
    local: usize,
)
    requires
        hir.local(receiver) == Some(local),
        under(hir, n, p),
        hir.kind(p) is Loop,
        forall|b: usize|
            hir.has(b) && under(hir, b, p) ==> !((#[trigger] hir.kind(b)) matches Kind::Binding {
                name: _,
                id,
                sub: _,
            } && id == local),
    ensures
        keeps_its_value(hir, n, receiver),
{
    lemma_read_next_round(hir, n, p, local);
}

/// A local that the nearest loop binds itself is new in every round.
pub proof fn loops_renew_what_they_bind(hir: Hir, n: usize, p: usize, b: usize, local: usize)
    requires
        hir.up(n) == Some(p),
        hir.kind(p) is Loop,
        hir.has(b),
        under(hir, b, p),
        hir.kind(b) matches Kind::Binding { name: _, id, sub: _ } && id == local,
    ensures
        read_next_round(hir, n, local) == read_next_round(hir, p, local),
{
    assert(binds(hir, b, local));
}

} // verus!
