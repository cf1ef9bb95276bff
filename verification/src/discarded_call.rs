//! The block walk shared by lints that flag a discarded call result. Each lint
//! keeps its own table of calls and its diagnostics; the walk lives here once.

use crate::hir;
use crate::hir::{Hir, Kind};
use crate::known::Known;
use crate::manual_list_mutation;
use vstd::prelude::*;

verus! {

/// A statement whose call result is discarded.
#[derive(Clone, Copy, Debug, PartialEq, Eq, Structural)]
pub enum Discarded {
    /// A `<call>;` statement or `let _ = <call>;`: the value drops at the
    /// semicolon, so the statement can rewrite to a use of the call.
    AtSemicolon { stmt: usize, call: usize },
    /// `let x = <call>;` where the statements after it and the block tail never
    /// read `x`: there is no mechanical fix, only a finding.
    NeverRead { stmt: usize, call: usize },
}

/// The call of one of `items` that an expression is.
pub open spec fn call_in(hir: Hir, n: usize, items: Seq<Known>) -> Option<usize> {
    let call = hir.undropped(n);
    if !hir.node(call).span.expanded() && hir.calls(call, items) {
        Some(call)
    } else {
        None
    }
}

/// The expression, drop-temps peeled, when it is a call of one of the items.
pub fn path_call(hir: &Hir, n: usize, items: &[Known]) -> (r: Option<usize>)
    requires
        hir.wf(),
        hir.has(n),
    ensures
        r == call_in(*hir, n, items@),
        r matches Some(call) ==> call <= n,
{
    let call: usize = hir.peel_drop_temps(n);
    if !hir.nodes[call].span.from_expansion() && hir.is_call_to(call, items) {
        Some(call)
    } else {
        None
    }
}

/// What statement `i` of a block discards.
pub open spec fn discarded_at(
    hir: Hir,
    stmts: Seq<usize>,
    tail: Option<usize>,
    items: Seq<Known>,
    i: int,
) -> Option<Discarded> {
    let stmt = stmts[i];
    match hir.kind(stmt) {
        Kind::Semi { expr } => match call_in(hir, expr, items) {
            Some(call) => Some(Discarded::AtSemicolon { stmt, call }),
            None => None,
        },
        Kind::LetDecl { local } => match hir.kind(local) {
            Kind::LetStmt { pat, ty: _, init: Some(init), els: _ } => match (
                call_in(hir, init, items),
                hir.kind(pat),
            ) {
                (Some(call), Kind::Wild) => Some(Discarded::AtSemicolon { stmt, call }),
                (Some(call), Kind::Binding { name: _, id, sub: _ }) => {
                    if manual_list_mutation::used_from(hir, stmts, tail, i + 1, id) {
                        None
                    } else {
                        Some(Discarded::NeverRead { stmt, call })
                    }
                },
                _ => None,
            },
            _ => None,
        },
        _ => None,
    }
}

/// What the first `n` statements discard.
pub open spec fn discarded_upto(
    hir: Hir,
    stmts: Seq<usize>,
    tail: Option<usize>,
    items: Seq<Known>,
    n: int,
) -> Seq<Discarded>
    decreases n,
{
    if n <= 0 {
        seq![]
    } else {
        let rest = discarded_upto(hir, stmts, tail, items, n - 1);
        match discarded_at(hir, stmts, tail, items, n - 1) {
            Some(found) => rest.push(found),
            None => rest,
        }
    }
}

/// What a block discards.
pub open spec fn discarded_in(hir: Hir, block: usize, items: Seq<Known>) -> Seq<Discarded> {
    match hir.kind(block) {
        Kind::Block { stmts, tail } => if hir.node(block).span.expanded() {
            seq![]
        } else {
            discarded_upto(hir, stmts@, tail, items, stmts@.len() as int)
        },
        _ => seq![],
    }
}

impl Discarded {
    /// The statement and the call are there.
    pub open spec fn fits(self, hir: Hir) -> bool {
        match self {
            Discarded::AtSemicolon { stmt, call } => hir.has(stmt) && hir.has(call),
            Discarded::NeverRead { stmt, call } => hir.has(stmt) && hir.has(call),
        }
    }
}

fn check_stmt(hir: &Hir, stmts: &Vec<usize>, tail: Option<usize>, items: &[Known], i: usize) -> (r:
    Option<Discarded>)
    requires
        hir.wf(),
        hir::all_below(stmts@, hir.nodes@.len() as int),
        hir::opt_below(tail, hir.nodes@.len() as int),
        i < stmts.len(),
    ensures
        r == discarded_at(*hir, stmts@, tail, items@, i as int),
        r matches Some(found) ==> found.fits(*hir),
{
    let stmt: usize = stmts[i];
    proof {
        assert(hir.node_wf(stmt));
    }
    match &hir.nodes[stmt].kind {
        Kind::Semi { expr } => match path_call(hir, *expr, items) {
            Some(call) => Some(Discarded::AtSemicolon { stmt, call }),
            None => None,
        },
        Kind::LetDecl { local } => {
            proof {
                assert(hir.node_wf(*local));
            }
            match &hir.nodes[*local].kind {
                Kind::LetStmt { pat, init: Some(init), .. } => {
                    let call: usize = match path_call(hir, *init, items) {
                        Some(call) => call,
                        None => {
                            return None;
                        },
                    };
                    match &hir.nodes[*pat].kind {
                        Kind::Wild => Some(Discarded::AtSemicolon { stmt, call }),
                        Kind::Binding { id, .. } => if manual_list_mutation::is_used_from(
                            hir,
                            stmts,
                            tail,
                            i + 1,
                            *id,
                        ) {
                            None
                        } else {
                            Some(Discarded::NeverRead { stmt, call })
                        },
                        _ => None,
                    }
                },
                _ => None,
            }
        },
        _ => None,
    }
}

/// Every statement in the block that discards the result of a call of one of the
/// items, in source order. A no-semicolon expression statement in the middle of a
/// block is `()`-typed, so a discarded call result can only sit behind a
/// semicolon or in a `let` initializer.
pub fn discarded_calls(hir: &Hir, block: usize, items: &[Known]) -> (r: Vec<Discarded>)
    requires
        hir.wf(),
        hir.has(block),
    ensures
        r@ == discarded_in(*hir, block, items@),
        forall|i: int| 0 <= i < r@.len() ==> (#[trigger] r@[i]).fits(*hir),
{
    let mut out: Vec<Discarded> = Vec::new();
    proof {
        assert(hir.node_wf(block));
        assert(out@ =~= seq![]);
    }
    if hir.nodes[block].span.from_expansion() {
        return out;
    }
    let (stmts, tail): (&Vec<usize>, Option<usize>) = match &hir.nodes[block].kind {
        Kind::Block { stmts, tail } => (stmts, *tail),
        _ => {
            return out;
        },
    };
    let mut i: usize = 0;
    while i < stmts.len()
        invariant
            i <= stmts.len(),
            hir.wf(),
            hir::all_below(stmts@, hir.nodes@.len() as int),
            hir::opt_below(tail, hir.nodes@.len() as int),
            out@ == discarded_upto(*hir, stmts@, tail, items@, i as int),
            forall|k: int| 0 <= k < out@.len() ==> (#[trigger] out@[k]).fits(*hir),
        decreases stmts.len() - i,
    {
        if let Some(found) = check_stmt(hir, stmts, tail, items, i) {
            out.push(found);
        }
        i = i + 1;
    }
    out
}

/// The statement `i` of the block drops the call's result at the semicolon.
pub open spec fn drops_result(hir: Hir, stmt: usize, call: usize, items: Seq<Known>) -> bool {
    &&& hir.calls(call, items)
    &&& !hir.node(call).span.expanded()
    &&& match hir.kind(stmt) {
        Kind::Semi { expr } => hir.undropped(expr) == call,
        Kind::LetDecl { local } => hir.kind(local) matches Kind::LetStmt {
            pat,
            ty: _,
            init: Some(init),
            els: _,
        } && hir.kind(pat) is Wild && hir.undropped(init) == call,
        _ => false,
    }
}

proof fn lemma_discarded(
    hir: Hir,
    stmts: Seq<usize>,
    tail: Option<usize>,
    items: Seq<Known>,
    n: int,
    found: Discarded,
)
    requires
        0 <= n <= stmts.len(),
    ensures
        discarded_upto(hir, stmts, tail, items, n).contains(found) <==> exists|i: int|
            0 <= i < n && #[trigger] discarded_at(hir, stmts, tail, items, i) == Some(found),
    decreases n,
{
    if n > 0 {
        lemma_discarded(hir, stmts, tail, items, n - 1, found);
        let all = discarded_upto(hir, stmts, tail, items, n);
        let rest = discarded_upto(hir, stmts, tail, items, n - 1);
        let last = discarded_at(hir, stmts, tail, items, n - 1);
        if all.contains(found) {
            let k = choose|k: int| 0 <= k < all.len() && all[k] == found;
            if k < rest.len() {
                assert(rest[k] == found);
                assert(rest.contains(found));
            } else {
                assert(last == Some(found));
            }
        }
        if rest.contains(found) {
            let k = choose|k: int| 0 <= k < rest.len() && rest[k] == found;
            assert(all[k] == found);
        }
        if last == Some(found) {
            assert(all[rest.len() as int] == found);
        }
    }
}

/// A result is dropped at the semicolon exactly where a statement of the block is
/// the call alone or binds it to `_`; and it is never read exactly where a `let`
/// names it and nothing behind the `let` reads the name.
pub proof fn dropped_results_are_found(
    hir: Hir,
    block: usize,
    stmts: Seq<usize>,
    tail: Option<usize>,
    items: Seq<Known>,
    i: int,
    call: usize,
)
    requires
        hir.kind(block) matches Kind::Block { stmts: list, tail: end } && list@ == stmts && end == tail,
        !hir.node(block).span.expanded(),
        0 <= i < stmts.len(),
    ensures
        drops_result(hir, stmts[i], call, items) ==> discarded_in(hir, block, items).contains(
            Discarded::AtSemicolon { stmt: stmts[i], call },
        ),
        discarded_in(hir, block, items).contains(
            Discarded::AtSemicolon { stmt: stmts[i], call },
        ) ==> drops_result(hir, stmts[i], call, items),
        discarded_in(hir, block, items).contains(Discarded::NeverRead { stmt: stmts[i], call })
            ==> exists|k: int, id: usize|
            {
                &&& 0 <= k < stmts.len()
                &&& stmts[k] == stmts[i]
                &&& names_result(hir, stmts[i], call, id)
                &&& !#[trigger] manual_list_mutation::used_from(hir, stmts, tail, k + 1, id)
            },
{
    let n = stmts.len() as int;
    let dropped = Discarded::AtSemicolon { stmt: stmts[i], call };
    let unread = Discarded::NeverRead { stmt: stmts[i], call };
    lemma_discarded(hir, stmts, tail, items, n, dropped);
    lemma_discarded(hir, stmts, tail, items, n, unread);
    if drops_result(hir, stmts[i], call, items) {
        assert(discarded_at(hir, stmts, tail, items, i) == Some(dropped));
    }
    if discarded_in(hir, block, items).contains(dropped) {
        let k = choose|k: int|
            0 <= k < n && #[trigger] discarded_at(hir, stmts, tail, items, k) == Some(dropped);
        assert(stmts[k] == stmts[i]);
    }
    if discarded_in(hir, block, items).contains(unread) {
        let k = choose|k: int|
            0 <= k < n && #[trigger] discarded_at(hir, stmts, tail, items, k) == Some(unread);
        assert(stmts[k] == stmts[i]);
        match hir.kind(stmts[i]) {
            Kind::LetDecl { local } => match hir.kind(local) {
                Kind::LetStmt { pat, ty: _, init: Some(_), els: _ } => match hir.kind(pat) {
                    Kind::Binding { name: _, id, sub: _ } => {
                        assert(names_result(hir, stmts[i], call, id));
                        assert(!manual_list_mutation::used_from(hir, stmts, tail, k + 1, id));
                    },
                    _ => {},
                },
                _ => {},
            },
            _ => {},
        }
    }
}

/// The statement binds the call's result to the local `id`.
pub open spec fn names_result(hir: Hir, stmt: usize, call: usize, id: usize) -> bool {
    &&& hir.kind(stmt) matches Kind::LetDecl { local }
    &&& hir.kind(local) matches Kind::LetStmt { pat, ty: _, init: Some(init), els: _ }
    &&& hir.undropped(init) == call
    &&& hir.kind(pat) matches Kind::Binding { name: _, id: bound, sub: _ }
    &&& bound == id
}

} // verus!
