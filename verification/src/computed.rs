//! `Computed` erasure machinery shared by `manual_computed` (which prefers the
//! `.computed()` spelling) and `needless_computed` (which drops the erasure
//! where every consumer accepts the un-erased signal).

use crate::hir::Hir;
use crate::known::Known;
use vstd::prelude::*;

verus! {

/// `result` is a `Computed<T>` made of a signal of `T`.
pub open spec fn erases(hir: Hir, result: usize, signal: usize) -> bool {
    match hir.ty_arg(hir.node(result).ty, Known::Computed, 0) {
        Some(output) => {
            &&& !hir.ty(output).has_infer
            &&& hir.expr_ty(signal).known_signal()
            &&& hir.expr_ty(signal).output == Some(output)
        },
        None => false,
    }
}

/// Whether `result` is `Computed<T>` where `signal` implements
/// `Signal<Output = T>`: the erasure `x.computed()` performs. The `Output`
/// equality rejects `IntoComputed::into_computed` calls that convert the value,
/// and the `Signal` check rejects receivers that are only `impl IntoComputed`
/// (such a parameter is not a signal, and the erasure is load-bearing there).
pub fn erases_signal(hir: &Hir, result: usize, signal: usize) -> (r: bool)
    requires
        hir.wf(),
        hir.has(result),
        hir.has(signal),
    ensures
        r == erases(*hir, result, signal),
{
    proof {
        assert(hir.node_wf(result));
    }
    match hir.adt_arg(hir.nodes[result].ty, Known::Computed, 0) {
        Some(output) => {
            let signal_ty = hir.type_of(signal);
            !hir.types[output].has_infer && signal_ty.is_known_signal() && (match signal_ty.output {
                Some(t) => t == output,
                None => false,
            })
        },
        None => false,
    }
}

} // verus!
