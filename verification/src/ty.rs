//! What the lints ask about types.

use crate::hir::{Hir, Impl, Trait, Ty, TyKind};
use crate::known::Known;
use vstd::prelude::*;

verus! {

impl Ty {
    /// The type implements the trait with these arguments.
    pub open spec fn implements(self, trait_: Trait, args: Seq<usize>) -> bool {
        exists|i: int|
            0 <= i < self.impls@.len() && (#[trigger] self.impls@[i]).trait_ == trait_
                && self.impls@[i].args@ == args
    }

    /// Whether the type implements the trait with these arguments.
    pub fn implements_with(&self, trait_: Trait, args: &Vec<usize>) -> (r: bool)
        ensures
            r == self.implements(trait_, args@),
    {
        let mut i: usize = 0;
        while i < self.impls.len()
            invariant
                i <= self.impls.len(),
                forall|k: int|
                    0 <= k < i ==> !((#[trigger] self.impls@[k]).trait_ == trait_
                        && self.impls@[k].args@ == args@),
            decreases self.impls.len() - i,
        {
            let found: &Impl = &self.impls[i];
            if found.trait_ == trait_ && same_ids(&found.args, args) {
                return true;
            }
            i = i + 1;
        }
        false
    }

    /// Whether the type implements the trait, which takes no arguments.
    pub fn implements_trait(&self, trait_: Trait) -> (r: bool)
        ensures
            r == self.implements(trait_, seq![]),
    {
        let none: Vec<usize> = Vec::new();
        proof {
            assert(none@ =~= seq![]);
        }
        self.implements_with(trait_, &none)
    }

    /// Whether the type implements the trait with one argument.
    pub fn implements_one(&self, trait_: Trait, arg: usize) -> (r: bool)
        ensures
            r == self.implements(trait_, seq![arg]),
    {
        let mut args: Vec<usize> = Vec::new();
        args.push(arg);
        proof {
            assert(args@ =~= seq![arg]);
        }
        self.implements_with(trait_, &args)
    }

    /// The type is known in full, and is `Clone`.
    pub open spec fn known_clone(self) -> bool {
        !self.has_infer && self.implements(Trait::Clone, seq![])
    }

    /// The type is known in full, and is a signal.
    pub open spec fn known_signal(self) -> bool {
        !self.has_infer && self.implements(Trait::Signal, seq![])
    }

    /// Whether the type is known in full and `Clone`.
    pub fn is_known_clone(&self) -> (r: bool)
        ensures
            r == self.known_clone(),
    {
        !self.has_infer && self.implements_trait(Trait::Clone)
    }

    /// Whether the type is known in full and a signal.
    pub fn is_known_signal(&self) -> (r: bool)
        ensures
            r == self.known_signal(),
    {
        !self.has_infer && self.implements_trait(Trait::Signal)
    }
}

/// Whether two lists of ids are the same.
pub fn same_ids(a: &Vec<usize>, b: &Vec<usize>) -> (r: bool)
    ensures
        r == (a@ == b@),
{
    if a.len() != b.len() {
        return false;
    }
    let mut i: usize = 0;
    while i < a.len()
        invariant
            i <= a.len(),
            a.len() == b.len(),
            forall|k: int| 0 <= k < i ==> a@[k] == b@[k],
        decreases a.len() - i,
    {
        if a[i] != b[i] {
            return false;
        }
        i = i + 1;
    }
    proof {
        assert(a@ =~= b@);
    }
    true
}

impl Hir {
    pub open spec fn ty(self, t: usize) -> Ty {
        self.types@[t as int]
    }

    /// The type of an expression or pattern.
    pub open spec fn expr_ty(self, n: usize) -> Ty {
        self.types@[self.node(n).ty as int]
    }

    /// The type of an expression after auto-deref and auto-borrow.
    pub open spec fn adjusted_ty(self, n: usize) -> Ty {
        self.types@[self.node(n).adjusted as int]
    }

    /// The type of an expression or pattern.
    pub fn type_of(&self, n: usize) -> (r: &Ty)
        requires
            self.wf(),
            self.has(n),
        ensures
            *r == self.expr_ty(n),
    {
        proof {
            assert(self.node_wf(n));
        }
        &self.types[self.nodes[n].ty]
    }

    /// The struct or enum that a type is, with its arguments.
    pub open spec fn adt(self, t: usize) -> Option<(usize, Seq<usize>)> {
        match self.ty(t).kind {
            TyKind::Adt { def, args } => Some((def, args@)),
            _ => None,
        }
    }

    /// The type is the struct or enum `item`.
    pub open spec fn ty_is(self, t: usize, item: Known) -> bool {
        match self.ty(t).kind {
            TyKind::Adt { def, args: _ } => self.is_def(def, item),
            _ => false,
        }
    }

    /// Whether the type is the struct or enum `item`.
    pub fn is_adt(&self, t: usize, item: Known) -> (r: bool)
        requires
            t < self.types.len(),
        ensures
            r == self.ty_is(t, item),
    {
        match &self.types[t].kind {
            TyKind::Adt { def, .. } => self.def_path_eq(*def, item),
            _ => false,
        }
    }

    /// The argument of the struct or enum `item`, where the type is that.
    pub open spec fn ty_arg(self, t: usize, item: Known, i: int) -> Option<usize> {
        match self.ty(t).kind {
            TyKind::Adt { def, args } => if self.is_def(def, item) && i < args@.len() {
                Some(args@[i])
            } else {
                None
            },
            _ => None,
        }
    }

    /// The argument of the struct or enum `item`, where the type is that.
    pub fn adt_arg(&self, t: usize, item: Known, i: usize) -> (r: Option<usize>)
        requires
            self.wf(),
            t < self.types.len(),
        ensures
            r == self.ty_arg(t, item, i as int),
            r matches Some(a) ==> a < t,
    {
        proof {
            assert(self.types@[t as int].below(t as int));
        }
        match &self.types[t].kind {
            TyKind::Adt { def, args } => if self.def_path_eq(*def, item) && i < args.len() {
                Some(args[i])
            } else {
                None
            },
            _ => None,
        }
    }
}

} // verus!
