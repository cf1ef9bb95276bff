//! Function signatures: which of the crate's functions a signature lint looks
//! at, and how it reads them.

use crate::hir;
use crate::hir::{Hir, Kind};
use vstd::prelude::*;

verus! {

/// Where a function is declared.
#[derive(Clone, Copy, Debug, PartialEq, Eq, Structural)]
pub enum FnHome {
    /// In a module or a block.
    Free,
    /// In an impl of a type.
    Inherent,
    /// In an impl of a trait: the trait fixes the signature.
    TraitImpl,
    /// In a trait.
    TraitMember,
}

/// A function of the linted crate.
#[derive(Debug)]
pub struct Function {
    /// The function, by place in `Hir::defs`.
    pub def: usize,
    /// Its node, with its parameters and its body.
    pub node: usize,
    pub home: FnHome,
    pub is_const: bool,
    pub is_extern: bool,
    /// An attribute exports it under a name of its own.
    pub exported: bool,
    /// It carries a visibility qualifier other than `pub(self)`.
    pub qualified: bool,
    /// The trait or type that it belongs to carries one.
    pub owner_qualified: bool,
    /// The types of its parameters, with type aliases normalized away.
    pub inputs: Vec<usize>,
    /// The same as written, by node.
    pub written: Vec<usize>,
}

impl Function {
    /// The function's ids are in range.
    pub open spec fn fits(self, hir: Hir) -> bool {
        &&& hir.has(self.node)
        &&& hir::all_below(self.inputs@, hir.types@.len() as int)
        &&& hir::all_below(self.written@, hir.nodes@.len() as int)
    }

    /// Its signature can be changed: `const`, `extern` and exported functions
    /// and the members of trait impls have theirs fixed.
    pub open spec fn changeable(self) -> bool {
        !self.is_const && !self.is_extern && !self.exported && self.home != FnHome::TraitImpl
    }

    /// Whether its signature can be changed.
    pub fn collectable(&self) -> (r: bool)
        ensures
            r == self.changeable(),
    {
        !self.is_const && !self.is_extern && !self.exported && self.home != FnHome::TraitImpl
    }

    /// The signature is public, read syntactically.
    pub open spec fn is_public(self) -> bool {
        self.qualified || (self.owner_qualified && (self.home == FnHome::TraitMember || self.home
            == FnHome::Inherent))
    }

    /// Whether the signature is public, read syntactically: a written qualifier
    /// (`pub`, `pub(crate)`, `pub(super)`, `pub(in ..)`; `pub(self)` counts as
    /// private), a member of a trait carrying one, or an inherent method of a
    /// type carrying one.
    pub fn public_signature(&self) -> (r: bool)
        ensures
            r == self.is_public(),
    {
        self.qualified || (self.owner_qualified && (self.home == FnHome::TraitMember || self.home
            == FnHome::Inherent))
    }
}

/// All the functions' ids are in range.
pub open spec fn all_fit(hir: Hir, fns: Seq<Function>) -> bool {
    forall|i: int| 0 <= i < fns.len() ==> (#[trigger] fns[i]).fits(hir)
}

/// The place of the first of the functions from `i` on that is `def`.
pub open spec fn function_from(fns: Seq<Function>, def: usize, i: int) -> Option<int>
    decreases fns.len() - i,
{
    if i < 0 || i >= fns.len() {
        None
    } else if fns[i].def == def {
        Some(i)
    } else {
        function_from(fns, def, i + 1)
    }
}

/// The function `def`, by its place in the list.
pub fn find_function(fns: &Vec<Function>, def: usize) -> (r: Option<usize>)
    ensures
        match r {
            Some(i) => function_from(fns@, def, 0) == Some(i as int) && i < fns.len(),
            None => function_from(fns@, def, 0) is None,
        },
{
    let mut i: usize = 0;
    while i < fns.len()
        invariant
            i <= fns.len(),
            function_from(fns@, def, 0) == function_from(fns@, def, i as int),
        decreases fns.len() - i,
    {
        if fns[i].def == def {
            return Some(i);
        }
        i = i + 1;
    }
    None
}

/// The function of the crate that a call runs, by its place in the list.
pub open spec fn called(hir: Hir, fns: Seq<Function>, n: usize) -> Option<int> {
    match hir.node(n).item {
        Some(def) => if hir.node(n).span.expanded() || !hir.is_call(n) {
            None
        } else {
            function_from(fns, def, 0)
        },
        None => None,
    }
}

/// The function of the crate that a call runs, or the trait's own where it runs
/// a trait impl's; nothing for a call that a macro makes.
pub fn called_function(hir: &Hir, fns: &Vec<Function>, n: usize) -> (r: Option<usize>)
    requires
        hir.has(n),
    ensures
        match r {
            Some(i) => called(*hir, fns@, n) == Some(i as int) && i < fns.len(),
            None => called(*hir, fns@, n) is None,
        },
{
    if hir.nodes[n].span.from_expansion() || !hir.call(n) {
        return None;
    }
    match hir.nodes[n].item {
        Some(def) => find_function(fns, def),
        None => None,
    }
}

/// The parameters and the body of a function's node.
pub open spec fn params_and_body(hir: Hir, n: usize) -> (Seq<usize>, Option<usize>) {
    match hir.kind(n) {
        Kind::Item { item: _, params, body } => (params@, body),
        Kind::ImplItem { inherent: _, params, body } => (params@, body),
        Kind::TraitItem { params, body } => (params@, body),
        _ => (seq![], None),
    }
}

/// The parameters and the body of a function's node.
pub fn signature_of(hir: &Hir, n: usize) -> (r: (Vec<usize>, Option<usize>))
    requires
        hir.wf(),
        hir.has(n),
    ensures
        (r.0@, r.1) == params_and_body(*hir, n),
        hir::all_below(r.0@, hir.nodes@.len() as int),
        hir::opt_below(r.1, hir.nodes@.len() as int),
{
    proof {
        assert(hir.node_wf(n));
    }
    let (params, body): (Vec<usize>, Option<usize>) = match &hir.nodes[n].kind {
        Kind::Item { params, body, .. } => (copy_ids(params), *body),
        Kind::ImplItem { params, body, .. } => (copy_ids(params), *body),
        Kind::TraitItem { params, body } => (copy_ids(params), *body),
        _ => {
            let none: Vec<usize> = Vec::new();
            proof {
                assert(none@ =~= seq![]);
            }
            (none, None)
        },
    };
    (params, body)
}

fn copy_ids(list: &Vec<usize>) -> (r: Vec<usize>)
    ensures
        r@ == list@,
{
    let mut out: Vec<usize> = Vec::new();
    let mut i: usize = 0;
    while i < list.len()
        invariant
            i <= list.len(),
            out@ == list@.take(i as int),
        decreases list.len() - i,
    {
        out.push(list[i]);
        proof {
            assert(out@ =~= list@.take(i + 1));
        }
        i = i + 1;
    }
    proof {
        assert(list@.take(list@.len() as int) =~= list@);
    }
    out
}

/// The pattern of a parameter, by its place.
pub open spec fn param_at(hir: Hir, params: Seq<usize>, i: int) -> Option<usize> {
    if 0 <= i < params.len() {
        match hir.kind(params[i]) {
            Kind::Param { pat } => Some(pat),
            _ => None,
        }
    } else {
        None
    }
}

/// The pattern of a parameter, by its place.
pub fn param_pat_at(hir: &Hir, params: &Vec<usize>, i: usize) -> (r: Option<usize>)
    requires
        hir.wf(),
        hir::all_below(params@, hir.nodes@.len() as int),
    ensures
        r == param_at(*hir, params@, i as int),
        r matches Some(pat) ==> hir.has(pat),
{
    if i >= params.len() {
        return None;
    }
    proof {
        assert(hir.node_wf(params@[i as int]));
    }
    match &hir.nodes[params[i]].kind {
        Kind::Param { pat } => Some(*pat),
        _ => None,
    }
}

/// A function can be changed unless its signature is fixed: by a trait that it
/// implements, by being const, by its ABI or by the name that it is exported
/// under. Others can see it where it is qualified itself, or where it belongs to a
/// trait or a type that is.
pub proof fn fixed_signatures_stay(f: Function)
    ensures
        f.home == FnHome::TraitImpl || f.is_const || f.is_extern || f.exported ==> !f.changeable(),
        f.home != FnHome::TraitImpl && !f.is_const && !f.is_extern && !f.exported
            ==> f.changeable(),
        f.qualified ==> f.is_public(),
        f.home == FnHome::Free && !f.qualified ==> !f.is_public(),
        f.owner_qualified && (f.home == FnHome::TraitMember || f.home == FnHome::Inherent)
            ==> f.is_public(),
        !f.qualified && !f.owner_qualified ==> !f.is_public(),
{
}

/// A call is one of the function whose definition it resolves to, the first of
/// that definition in the list.
pub proof fn calls_find_their_function(hir: Hir, fns: Seq<Function>, n: usize)
    ensures
        called(hir, fns, n) matches Some(i) ==> 0 <= i < fns.len() && hir.node(n).item == Some(
            fns[i].def,
        ) && hir.is_call(n) && !hir.node(n).span.expanded(),
        called(hir, fns, n) is None && hir.is_call(n) && !hir.node(n).span.expanded() ==> (hir.node(
            n,
        ).item matches Some(def) ==> forall|k: int|
            0 <= k < fns.len() ==> (#[trigger] fns[k]).def != def),
{
    if let Some(def) = hir.node(n).item {
        lemma_function_from(fns, def, 0);
    }
}

proof fn lemma_function_from(fns: Seq<Function>, def: usize, i: int)
    requires
        0 <= i,
    ensures
        match function_from(fns, def, i) {
            Some(k) => i <= k < fns.len() && fns[k].def == def,
            None => forall|k: int| i <= k < fns.len() ==> (#[trigger] fns[k]).def != def,
        },
    decreases fns.len() - i,
{
    if i < fns.len() && fns[i].def != def {
        lemma_function_from(fns, def, i + 1);
    }
}

} // verus!
