//! Import-aware helpers for lints whose fix writes a `use` item: `bare_status`
//! resolves what a bare name would mean at the flagged position, and
//! `use_insertion` picks where in the enclosing module the new `use` line lands.

use crate::hir::{GenericParam, Hir, ItemKind, Kind, Meaning, Namespace, Span, UseRes};
use crate::text;
use vstd::prelude::*;

verus! {

/// A name in a module's name table.
#[derive(Debug)]
pub struct ModChild {
    pub name: String,
    pub ns: Option<Namespace>,
    pub meaning: Meaning,
}

/// A name that a module's imports leave ambiguous, with the namespaces of the
/// two candidates.
#[derive(Debug)]
pub struct Ambiguity {
    pub name: String,
    pub main: Option<Namespace>,
    pub second: Option<Namespace>,
}

/// A `use` item of a module: its source, and the indentation of its line.
#[derive(Debug)]
pub struct UseItem {
    pub span: Span,
    pub text: Option<String>,
    pub indent: Option<String>,
}

/// The module that a flagged position lies in.
#[derive(Debug)]
pub struct Module {
    /// The name table, which accounts for `use`s, glob imports and the prelude.
    pub children: Vec<ModChild>,
    pub ambiguous: Vec<Ambiguity>,
    pub uses: Vec<UseItem>,
    /// Where a first `use` goes; nothing where that is unknown.
    pub inject: Option<Span>,
    /// The indentation there.
    pub inject_indent: Option<String>,
}

/// What a bare name would resolve to at the flagged position: decides the shape
/// and applicability of the fix.
#[derive(Clone, Copy, Debug, PartialEq, Eq, Structural)]
pub enum Bare {
    /// Nothing binds the name: `use` the full path and strip the qualifier.
    Free,
    /// The name already resolves to the very same item: strip only, no import
    /// is emitted.
    Same,
    /// The name resolves to something else: suggest an `as` alias.
    Conflict,
    /// A function-local `use ..::*` could resolve the name either way: suggest
    /// the safe alias form, marked `MaybeIncorrect`.
    Unknown,
}

/// An item-level name binding found while walking lexical scopes.
#[derive(Clone, Copy, Debug, PartialEq, Eq, Structural)]
pub enum ItemCheck {
    Free,
    Glob,
    Same,
    Conflict,
}

/// The name that is looked up, and what it should mean.
pub struct Query<'a> {
    /// The byte position of the use.
    pub pos: u32,
    pub name: &'a str,
    pub ns: Namespace,
    /// The item that the name should stand for.
    pub target: Option<usize>,
}

impl Meaning {
    /// What the name stands for, a constructor taken for what it constructs.
    pub open spec fn target(self, hir: Hir) -> Option<usize> {
        match self.def {
            Some(def) => Some(hir.target(def)),
            None => None,
        }
    }

    fn target_did(self, hir: &Hir) -> (r: Option<usize>)
        ensures
            r == self.target(*hir),
    {
        match self.def {
            Some(def) => Some(hir.target_did(def)),
            None => None,
        }
    }
}

impl UseRes {
    pub open spec fn in_ns(self, ns: Namespace) -> Option<Meaning> {
        match ns {
            Namespace::Type => self.type_ns,
            Namespace::Value => self.value_ns,
            Namespace::Macro => self.macro_ns,
        }
    }
}

/// The pattern binds the name (`vstack`, `(a, vstack)`, `Some(vstack)`).
pub open spec fn binds(hir: Hir, pat: usize, name: Seq<char>) -> bool {
    exists|i: int|
        0 <= i < hir.bindings(pat).len() && binding_named(hir, #[trigger] hir.bindings(pat)[i], name)
}

/// The node is a binding of that name.
pub open spec fn binding_named(hir: Hir, n: usize, name: Seq<char>) -> bool {
    match hir.kind(n) {
        Kind::Binding { name: ident, id: _, sub: _ } => ident.name@ == name,
        _ => false,
    }
}

/// Whether `pat` binds `name`.
pub fn pat_binds(hir: &Hir, pat: usize, name: &str) -> (r: bool)
    requires
        hir.wf(),
        hir.has(pat),
    ensures
        r == binds(*hir, pat, name@),
{
    let list: Vec<usize> = hir.bindings_in(pat);
    let mut i: usize = 0;
    while i < list.len()
        invariant
            i <= list.len(),
            list@ == hir.bindings(pat),
            crate::hir::all_below(list@, pat + 1),
            hir.has(pat),
            forall|k: int| 0 <= k < i ==> !binding_named(*hir, #[trigger] list@[k], name@),
        decreases list.len() - i,
    {
        if let Kind::Binding { name: ident, .. } = &hir.nodes[list[i]].kind {
            if text::str_eq(ident.name.as_str(), name) {
                assert(binding_named(*hir, list@[i as int], name@));
                return true;
            }
        }
        i = i + 1;
    }
    false
}

/// Pattern bindings only shadow value-namespace names.
pub open spec fn value_binds(hir: Hir, pat: usize, name: Seq<char>, ns: Namespace) -> bool {
    ns is Value && binds(hir, pat, name)
}

/// Whether `pat` binds `name` in the namespace: pattern bindings only shadow
/// value-namespace names (`let vstack = ..`, `|vstack| ..`, `Some(vstack)`).
pub fn value_pat_binds(hir: &Hir, pat: usize, name: &str, ns: Namespace) -> (r: bool)
    requires
        hir.wf(),
        hir.has(pat),
    ensures
        r == value_binds(*hir, pat, name@, ns),
{
    ns == Namespace::Value && pat_binds(hir, pat, name)
}

/// One of the generic parameters has that name in that namespace.
pub open spec fn shadowed(generics: Seq<GenericParam>, name: Seq<char>, ns: Namespace) -> bool {
    exists|i: int|
        0 <= i < generics.len() && (#[trigger] generics[i]).name@ == name && generics[i].ns == Some(
            ns,
        )
}

/// Whether any generic parameter is named `name` in namespace `ns`: a
/// `fn f<VStack>(..)` makes a later bare `VStack` mean the type parameter, not
/// the import.
pub fn generics_shadow(generics: &Vec<GenericParam>, name: &str, ns: Namespace) -> (r: bool)
    ensures
        r == shadowed(generics@, name@, ns),
{
    let mut i: usize = 0;
    while i < generics.len()
        invariant
            i <= generics.len(),
            forall|k: int|
                0 <= k < i ==> !((#[trigger] generics@[k]).name@ == name@ && generics@[k].ns
                    == Some(ns)),
        decreases generics.len() - i,
    {
        let same = match generics[i].ns {
            Some(other) => other == ns,
            None => false,
        };
        if same && text::str_eq(generics[i].name.as_str(), name) {
            return true;
        }
        i = i + 1;
    }
    false
}

/// The pattern of a parameter.
pub open spec fn param_pat(hir: Hir, param: usize) -> usize {
    match hir.kind(param) {
        Kind::Param { pat } => pat,
        _ => param,
    }
}

/// One of the parameters binds the name.
pub open spec fn any_param_binds(
    hir: Hir,
    params: Seq<usize>,
    name: Seq<char>,
    ns: Namespace,
) -> bool {
    ns is Value && exists|i: int|
        0 <= i < params.len() && binds(hir, param_pat(hir, #[trigger] params[i]), name)
}

/// Whether the parameters of a body bind `name`: only meaningful for
/// value-namespace lookups.
pub fn params_bind(hir: &Hir, params: &Vec<usize>, name: &str, ns: Namespace) -> (r: bool)
    requires
        hir.wf(),
        crate::hir::all_below(params@, hir.nodes@.len() as int),
    ensures
        r == any_param_binds(*hir, params@, name@, ns),
{
    if ns != Namespace::Value {
        return false;
    }
    let mut i: usize = 0;
    while i < params.len()
        invariant
            i <= params.len(),
            hir.wf(),
            ns is Value,
            crate::hir::all_below(params@, hir.nodes@.len() as int),
            forall|k: int|
                0 <= k < i ==> !binds(*hir, param_pat(*hir, #[trigger] params@[k]), name@),
        decreases params.len() - i,
    {
        let param: usize = params[i];
        proof {
            assert(hir.node_wf(param));
        }
        let pat: usize = match &hir.nodes[param].kind {
            Kind::Param { pat } => *pat,
            _ => param,
        };
        if pat_binds(hir, pat, name) {
            assert(binds(*hir, param_pat(*hir, params@[i as int]), name@));
            return true;
        }
        i = i + 1;
    }
    false
}

/// What an item inside a block does to the name.
pub open spec fn item_check(
    hir: Hir,
    item: ItemKind,
    name: Seq<char>,
    ns: Namespace,
    target: Option<usize>,
) -> ItemCheck {
    match item {
        ItemKind::Glob => ItemCheck::Glob,
        ItemKind::Single { name: bound, res } => if bound@ == name {
            match res.in_ns(ns) {
                Some(meaning) => if meaning.target(hir) == target {
                    ItemCheck::Same
                } else {
                    ItemCheck::Conflict
                },
                None => ItemCheck::Free,
            }
        } else {
            ItemCheck::Free
        },
        ItemKind::Fn { name: bound } => if bound@ == name && ns is Value {
            ItemCheck::Conflict
        } else {
            ItemCheck::Free
        },
        ItemKind::Named { name: bound, ns: other } => if bound@ == name && ns == other {
            ItemCheck::Conflict
        } else {
            ItemCheck::Free
        },
        ItemKind::OtherUse | ItemKind::Unnamed => ItemCheck::Free,
    }
}

/// A `use` or ordinary item inside a block. `use a::*` is `Glob` (a potential
/// binding whose resolution cannot be enumerated here), an explicit
/// `use a::name` reports `Same`/`Conflict`, and any other item named `name` in
/// the right namespace is a `Conflict`.
pub fn check_block_item(hir: &Hir, item: &ItemKind, query: &Query) -> (r: ItemCheck)
    ensures
        r == item_check(*hir, *item, query.name@, query.ns, query.target),
{
    match item {
        ItemKind::Glob => ItemCheck::Glob,
        ItemKind::Single { name: bound, res } => {
            if !text::str_eq(bound.as_str(), query.name) {
                return ItemCheck::Free;
            }
            let meaning: Option<Meaning> = match query.ns {
                Namespace::Type => res.type_ns,
                Namespace::Value => res.value_ns,
                Namespace::Macro => res.macro_ns,
            };
            match meaning {
                Some(meaning) => if meaning.target_did(hir) == query.target {
                    ItemCheck::Same
                } else {
                    ItemCheck::Conflict
                },
                None => ItemCheck::Free,
            }
        },
        ItemKind::Fn { name: bound } => if query.ns == Namespace::Value && text::str_eq(
            bound.as_str(),
            query.name,
        ) {
            ItemCheck::Conflict
        } else {
            ItemCheck::Free
        },
        ItemKind::Named { name: bound, ns } => if query.ns == *ns && text::str_eq(
            bound.as_str(),
            query.name,
        ) {
            ItemCheck::Conflict
        } else {
            ItemCheck::Free
        },
        ItemKind::OtherUse | ItemKind::Unnamed => ItemCheck::Free,
    }
}

/// What a statement of a block does to a name used at `pos`: a `let` that ends
/// before it binds, and an item binds wherever it stands.
pub open spec fn stmt_check(
    hir: Hir,
    stmt: usize,
    pos: u32,
    name: Seq<char>,
    ns: Namespace,
    target: Option<usize>,
) -> ItemCheck {
    match hir.kind(stmt) {
        Kind::LetDecl { local } => match hir.kind(local) {
            Kind::LetStmt { pat, ty: _, init: _, els: _ } => if hir.node(local).span.hi <= pos
                && value_binds(hir, pat, name, ns) {
                ItemCheck::Conflict
            } else {
                ItemCheck::Free
            },
            _ => ItemCheck::Free,
        },
        Kind::ItemStmt { item } => match hir.kind(item) {
            Kind::Item { item: kind, params: _, body: _ } => item_check(
                hir,
                kind,
                name,
                ns,
                target,
            ),
            _ => ItemCheck::Free,
        },
        _ => ItemCheck::Free,
    }
}

/// What the first `n` statements of a block do to the name: the first that
/// decides, and whether a glob import came before it.
pub open spec fn block_check(
    hir: Hir,
    stmts: Seq<usize>,
    n: int,
    pos: u32,
    name: Seq<char>,
    ns: Namespace,
    target: Option<usize>,
) -> ItemCheck
    decreases n,
{
    if n <= 0 {
        ItemCheck::Free
    } else {
        let before = block_check(hir, stmts, n - 1, pos, name, ns, target);
        if before is Same || before is Conflict {
            before
        } else {
            match stmt_check(hir, stmts[n - 1], pos, name, ns, target) {
                ItemCheck::Free => before,
                other => other,
            }
        }
    }
}

fn check_stmt(hir: &Hir, stmt: usize, query: &Query) -> (r: ItemCheck)
    requires
        hir.wf(),
        hir.has(stmt),
    ensures
        r == stmt_check(*hir, stmt, query.pos, query.name@, query.ns, query.target),
{
    proof {
        assert(hir.node_wf(stmt));
    }
    match &hir.nodes[stmt].kind {
        Kind::LetDecl { local } => {
            proof {
                assert(hir.node_wf(*local));
            }
            match &hir.nodes[*local].kind {
                Kind::LetStmt { pat, .. } => {
                    if hir.nodes[*local].span.hi <= query.pos && value_pat_binds(
                        hir,
                        *pat,
                        query.name,
                        query.ns,
                    ) {
                        ItemCheck::Conflict
                    } else {
                        ItemCheck::Free
                    }
                },
                _ => ItemCheck::Free,
            }
        },
        Kind::ItemStmt { item } => match &hir.nodes[*item].kind {
            Kind::Item { item: kind, .. } => check_block_item(hir, kind, query),
            _ => ItemCheck::Free,
        },
        _ => ItemCheck::Free,
    }
}

fn check_block(hir: &Hir, stmts: &Vec<usize>, query: &Query) -> (r: ItemCheck)
    requires
        hir.wf(),
        crate::hir::all_below(stmts@, hir.nodes@.len() as int),
    ensures
        r == block_check(
            *hir,
            stmts@,
            stmts@.len() as int,
            query.pos,
            query.name@,
            query.ns,
            query.target,
        ),
{
    let mut found: ItemCheck = ItemCheck::Free;
    let mut i: usize = 0;
    while i < stmts.len()
        invariant
            i <= stmts.len(),
            hir.wf(),
            crate::hir::all_below(stmts@, hir.nodes@.len() as int),
            found == block_check(
                *hir,
                stmts@,
                i as int,
                query.pos,
                query.name@,
                query.ns,
                query.target,
            ),
        decreases stmts.len() - i,
    {
        match found {
            ItemCheck::Same | ItemCheck::Conflict => {},
            _ => match check_stmt(hir, stmts[i], query) {
                ItemCheck::Free => {},
                other => {
                    found = other;
                },
            },
        }
        i = i + 1;
    }
    found
}

/// What the walk up from a use has gone through.
#[derive(Clone, Copy, Debug, PartialEq, Eq, Structural)]
pub struct Climb {
    /// A block imports by glob.
    pub glob: bool,
    /// A block was left: parameters and generics of the enclosing item scope
    /// over the body, but not over the signature itself.
    pub in_body: bool,
    /// A pattern was left: an arm's bindings do not scope over their own
    /// pattern.
    pub in_pat: bool,
    /// A `let` condition was left: its bindings do not scope over itself.
    pub in_let: bool,
}

/// What one enclosing node does to the name.
#[derive(Clone, Copy, Debug, PartialEq, Eq, Structural)]
pub enum Scope {
    /// It decides.
    Found(Bare),
    /// The lexical scopes end here.
    End,
    /// The walk goes on.
    On(Climb),
}

/// An enclosing item: its generics shadow, and its parameters do over its body.
pub open spec fn item_conflict(
    hir: Hir,
    p: usize,
    params: Seq<usize>,
    name: Seq<char>,
    ns: Namespace,
    in_body: bool,
) -> bool {
    shadowed(hir.node(p).generics@, name, ns) || (in_body && any_param_binds(hir, params, name, ns))
}

/// What the enclosing node `p` does to the name.
pub open spec fn scope_at(
    hir: Hir,
    p: usize,
    climb: Climb,
    pos: u32,
    name: Seq<char>,
    ns: Namespace,
    target: Option<usize>,
) -> Scope {
    match hir.kind(p) {
        Kind::Block { stmts, tail: _ } => match block_check(
            hir,
            stmts@,
            stmts@.len() as int,
            pos,
            name,
            ns,
            target,
        ) {
            ItemCheck::Free => Scope::On(Climb { in_body: true, ..climb }),
            ItemCheck::Glob => Scope::On(Climb { in_body: true, glob: true, ..climb }),
            ItemCheck::Same => Scope::Found(Bare::Same),
            ItemCheck::Conflict => Scope::Found(Bare::Conflict),
        },
        Kind::Arm { pat, guard: _, body: _ } => if !climb.in_pat && value_binds(
            hir,
            pat,
            name,
            ns,
        ) {
            Scope::Found(Bare::Conflict)
        } else {
            Scope::On(climb)
        },
        Kind::Binding { .. } | Kind::Wild | Kind::TuplePat { .. } | Kind::TupleStructPat { .. }
        | Kind::PeelPat { .. } | Kind::OrPat { .. } | Kind::OtherPat { .. } => Scope::On(
            Climb { in_pat: true, ..climb },
        ),
        Kind::Closure { params, body: _, by_move: _ } => if climb.in_body && any_param_binds(
            hir,
            params@,
            name,
            ns,
        ) {
            Scope::Found(Bare::Conflict)
        } else {
            Scope::On(climb)
        },
        Kind::If { cond, then: _, els: _ } => match hir.kind(cond) {
            Kind::Let { pat, init: _ } => if !climb.in_let && value_binds(hir, pat, name, ns) {
                Scope::Found(Bare::Conflict)
            } else {
                Scope::On(climb)
            },
            _ => Scope::On(climb),
        },
        Kind::Let { .. } => Scope::On(Climb { in_let: true, ..climb }),
        Kind::Item { item: _, params, body: _ } => if item_conflict(
            hir,
            p,
            params@,
            name,
            ns,
            climb.in_body,
        ) {
            Scope::Found(Bare::Conflict)
        } else {
            Scope::End
        },
        Kind::ImplItem { inherent: _, params, body: _ } => if item_conflict(
            hir,
            p,
            params@,
            name,
            ns,
            climb.in_body,
        ) {
            Scope::Found(Bare::Conflict)
        } else {
            Scope::On(climb)
        },
        Kind::TraitItem { params, body: _ } => if item_conflict(
            hir,
            p,
            params@,
            name,
            ns,
            climb.in_body,
        ) {
            Scope::Found(Bare::Conflict)
        } else {
            Scope::On(climb)
        },
        Kind::ForeignItem => if shadowed(hir.node(p).generics@, name, ns) {
            Scope::Found(Bare::Conflict)
        } else {
            Scope::On(climb)
        },
        Kind::Crate => Scope::End,
        _ => Scope::On(climb),
    }
}

/// What the lexical scopes around `n` make of the name: what decides, or else
/// whether a block imports by glob.
pub open spec fn lexical(
    hir: Hir,
    n: usize,
    climb: Climb,
    pos: u32,
    name: Seq<char>,
    ns: Namespace,
    target: Option<usize>,
) -> Result<Bare, bool>
    decreases hir.nodes@.len() - n,
{
    match hir.up(n) {
        Some(p) => match scope_at(hir, p, climb, pos, name, ns, target) {
            Scope::Found(bare) => Ok(bare),
            Scope::End => Err(climb.glob),
            Scope::On(climb) => lexical(hir, p, climb, pos, name, ns, target),
        },
        None => Err(climb.glob),
    }
}

/// The child of a module is the name in that namespace.
pub open spec fn child_named(child: ModChild, name: Seq<char>, ns: Namespace) -> bool {
    child.name@ == name && child.ns == Some(ns)
}

/// The module's imports leave the name ambiguous.
pub open spec fn is_ambiguous(module: Module, name: Seq<char>, ns: Namespace) -> bool {
    exists|i: int|
        0 <= i < module.ambiguous@.len() && (#[trigger] module.ambiguous@[i]).name@ == name && (
        module.ambiguous@[i].main == Some(ns) || module.ambiguous@[i].second == Some(ns))
}

/// The module has the name, for the target.
pub open spec fn has_target(
    hir: Hir,
    module: Module,
    name: Seq<char>,
    ns: Namespace,
    target: Option<usize>,
) -> bool {
    exists|i: int|
        0 <= i < module.children@.len() && child_named(#[trigger] module.children@[i], name, ns)
            && module.children@[i].meaning.target(hir) == target
}

/// The module has the name.
pub open spec fn has_name(module: Module, name: Seq<char>, ns: Namespace) -> bool {
    exists|i: int|
        0 <= i < module.children@.len() && child_named(#[trigger] module.children@[i], name, ns)
}

/// What the module's own name table makes of the name.
pub open spec fn in_module(
    hir: Hir,
    module: Module,
    glob: bool,
    name: Seq<char>,
    ns: Namespace,
    target: Option<usize>,
) -> Bare {
    if has_target(hir, module, name, ns, target) {
        Bare::Same
    } else if is_ambiguous(module, name, ns) || has_name(module, name, ns) {
        Bare::Conflict
    } else if glob {
        Bare::Unknown
    } else {
        Bare::Free
    }
}

/// What a bare `name` means at `n`: lexical bindings (params, `let`s, block
/// items, generic params) first, then the enclosing module's name table.
pub open spec fn bare_meaning(
    hir: Hir,
    module: Module,
    n: usize,
    pos: u32,
    name: Seq<char>,
    ns: Namespace,
    target: Option<usize>,
) -> Bare {
    let climb = Climb { glob: false, in_body: false, in_pat: false, in_let: false };
    match lexical(hir, n, climb, pos, name, ns, target) {
        Ok(bare) => bare,
        Err(glob) => in_module(hir, module, glob, name, ns, target),
    }
}

fn check_item(hir: &Hir, p: usize, params: &Vec<usize>, in_body: bool, query: &Query) -> (r: bool)
    requires
        hir.wf(),
        hir.has(p),
        crate::hir::all_below(params@, hir.nodes@.len() as int),
    ensures
        r == item_conflict(*hir, p, params@, query.name@, query.ns, in_body),
{
    generics_shadow(&hir.nodes[p].generics, query.name, query.ns) || (in_body && params_bind(
        hir,
        params,
        query.name,
        query.ns,
    ))
}

fn check_scope(hir: &Hir, p: usize, climb: Climb, query: &Query) -> (r: Scope)
    requires
        hir.wf(),
        hir.has(p),
    ensures
        r == scope_at(*hir, p, climb, query.pos, query.name@, query.ns, query.target),
{
    proof {
        assert(hir.node_wf(p));
    }
    match &hir.nodes[p].kind {
        Kind::Block { stmts, .. } => match check_block(hir, stmts, query) {
            ItemCheck::Free => Scope::On(Climb { in_body: true, ..climb }),
            ItemCheck::Glob => Scope::On(Climb { in_body: true, glob: true, ..climb }),
            ItemCheck::Same => Scope::Found(Bare::Same),
            ItemCheck::Conflict => Scope::Found(Bare::Conflict),
        },
        Kind::Arm { pat, .. } => if !climb.in_pat && value_pat_binds(
            hir,
            *pat,
            query.name,
            query.ns,
        ) {
            Scope::Found(Bare::Conflict)
        } else {
            Scope::On(climb)
        },
        Kind::Binding { .. } | Kind::Wild | Kind::TuplePat { .. } | Kind::TupleStructPat { .. }
        | Kind::PeelPat { .. } | Kind::OrPat { .. } | Kind::OtherPat { .. } => Scope::On(
            Climb { in_pat: true, ..climb },
        ),
        Kind::Closure { params, .. } => if climb.in_body && params_bind(
            hir,
            params,
            query.name,
            query.ns,
        ) {
            Scope::Found(Bare::Conflict)
        } else {
            Scope::On(climb)
        },
        Kind::If { cond, .. } => {
            proof {
                assert(hir.node_wf(*cond));
            }
            match &hir.nodes[*cond].kind {
                Kind::Let { pat, .. } => if !climb.in_let && value_pat_binds(
                    hir,
                    *pat,
                    query.name,
                    query.ns,
                ) {
                    Scope::Found(Bare::Conflict)
                } else {
                    Scope::On(climb)
                },
                _ => Scope::On(climb),
            }
        },
        Kind::Let { .. } => Scope::On(Climb { in_let: true, ..climb }),
        Kind::Item { params, .. } => if check_item(hir, p, params, climb.in_body, query) {
            Scope::Found(Bare::Conflict)
        } else {
            Scope::End
        },
        Kind::ImplItem { params, .. } => if check_item(hir, p, params, climb.in_body, query) {
            Scope::Found(Bare::Conflict)
        } else {
            Scope::On(climb)
        },
        Kind::TraitItem { params, .. } => if check_item(hir, p, params, climb.in_body, query) {
            Scope::Found(Bare::Conflict)
        } else {
            Scope::On(climb)
        },
        Kind::ForeignItem => if generics_shadow(&hir.nodes[p].generics, query.name, query.ns) {
            Scope::Found(Bare::Conflict)
        } else {
            Scope::On(climb)
        },
        Kind::Crate => Scope::End,
        _ => Scope::On(climb),
    }
}

fn check_lexical(hir: &Hir, n: usize, climb: Climb, query: &Query) -> (r: Result<Bare, bool>)
    requires
        hir.wf(),
        hir.has(n),
    ensures
        r == lexical(*hir, n, climb, query.pos, query.name@, query.ns, query.target),
    decreases hir.nodes@.len() - n,
{
    match hir.parent(n) {
        Some(p) => match check_scope(hir, p, climb, query) {
            Scope::Found(bare) => Ok(bare),
            Scope::End => Err(climb.glob),
            Scope::On(climb) => check_lexical(hir, p, climb, query),
        },
        None => Err(climb.glob),
    }
}

fn check_module(hir: &Hir, module: &Module, glob: bool, query: &Query) -> (r: Bare)
    ensures
        r == in_module(*hir, *module, glob, query.name@, query.ns, query.target),
{
    let mut conflict: bool = false;
    let mut i: usize = 0;
    while i < module.children.len()
        invariant
            i <= module.children.len(),
            conflict == (exists|k: int|
                0 <= k < i && child_named(#[trigger] module.children@[k], query.name@, query.ns)),
            forall|k: int|
                0 <= k < i ==> !(child_named(
                    #[trigger] module.children@[k],
                    query.name@,
                    query.ns,
                ) && module.children@[k].meaning.target(*hir) == query.target),
        decreases module.children.len() - i,
    {
        let child: &ModChild = &module.children[i];
        let same = match child.ns {
            Some(ns) => ns == query.ns,
            None => false,
        };
        if same && text::str_eq(child.name.as_str(), query.name) {
            assert(child_named(module.children@[i as int], query.name@, query.ns));
            if child.meaning.target_did(hir) == query.target {
                return Bare::Same;
            }
            conflict = true;
        }
        i = i + 1;
    }
    let mut j: usize = 0;
    while j < module.ambiguous.len()
        invariant
            j <= module.ambiguous.len(),
            !has_target(*hir, *module, query.name@, query.ns, query.target),
            forall|k: int|
                0 <= k < j ==> !((#[trigger] module.ambiguous@[k]).name@ == query.name@ && (
                module.ambiguous@[k].main == Some(query.ns) || module.ambiguous@[k].second == Some(
                    query.ns,
                ))),
        decreases module.ambiguous.len() - j,
    {
        let other: &Ambiguity = &module.ambiguous[j];
        let ns = Some(query.ns);
        if (other.main == ns || other.second == ns) && text::str_eq(
            other.name.as_str(),
            query.name,
        ) {
            return Bare::Conflict;
        }
        j = j + 1;
    }
    if conflict {
        Bare::Conflict
    } else if glob {
        Bare::Unknown
    } else {
        Bare::Free
    }
}

/// Resolves `name` as it would resolve at `n`: lexical bindings (params,
/// `let`s, block items, generic params) first, then the enclosing module's name
/// table, which already accounts for `use`s, glob imports, and the prelude.
pub fn bare_status(hir: &Hir, module: &Module, n: usize, query: &Query) -> (r: Bare)
    requires
        hir.wf(),
        hir.has(n),
    ensures
        r == bare_meaning(*hir, *module, n, query.pos, query.name@, query.ns, query.target),
{
    let climb: Climb = Climb { glob: false, in_body: false, in_pat: false, in_let: false };
    match check_lexical(hir, n, climb, query) {
        Ok(bare) => bare,
        Err(glob) => check_module(hir, module, glob, query),
    }
}

/// The path that a `use` item sorts by: what stands behind its first `use `,
/// without the semicolon. `pub use a::b;` sorts as `a::b`.
pub open spec fn sort_path(source: Seq<char>) -> Seq<char> {
    let path = match text::first_at(source, "use "@, 0) {
        Some(i) => source.skip(i + "use "@.len()),
        None => source,
    };
    text::trimmed(text::without_trailing(path, ';'))
}

fn use_path_of(source: &str) -> (r: String)
    ensures
        r@ == sort_path(source@),
{
    let cs: Vec<char> = text::chars(source);
    let mark: Vec<char> = text::chars("use ");
    let path: String = match text::find_from(&cs, &mark, 0) {
        Some(i) => {
            let len: usize = cs.len();
            let rest: String = text::string_of(&cs, i + mark.len(), len);
            proof {
                assert(rest@ =~= source@.skip(i + mark.len()));
            }
            rest
        },
        None => source.to_owned(),
    };
    text::trim(text::trim_end_matches(path.as_str(), ';').as_str())
}

/// A `use` item that a new one can be placed by: written by hand, and its
/// source can be read.
pub open spec fn placeable(item: UseItem) -> bool {
    !item.span.expanded() && item.text is Some
}

/// A `use` item that a new `path` goes behind.
pub open spec fn precedes(item: UseItem, path: Seq<char>) -> bool {
    match item.text {
        Some(source) => !item.span.expanded() && text::text_le(sort_path(source@), path),
        None => false,
    }
}

/// Of the first `n` items, the last one in the source that a new `path` goes
/// behind.
pub open spec fn predecessor(uses: Seq<UseItem>, path: Seq<char>, n: int) -> Option<int>
    decreases n,
{
    if n <= 0 {
        None
    } else {
        match predecessor(uses, path, n - 1) {
            Some(best) => if precedes(uses[n - 1], path) && uses[best].span.lo <= uses[n
                - 1].span.lo {
                Some(n - 1)
            } else {
                Some(best)
            },
            None => if precedes(uses[n - 1], path) {
                Some(n - 1)
            } else {
                None
            },
        }
    }
}

/// Of the first `n` items, the first one in the source that a new one can be
/// placed by.
pub open spec fn earliest(uses: Seq<UseItem>, n: int) -> Option<int>
    decreases n,
{
    if n <= 0 {
        None
    } else {
        match earliest(uses, n - 1) {
            Some(best) => if placeable(uses[n - 1]) && uses[n - 1].span.lo < uses[best].span.lo {
                Some(n - 1)
            } else {
                Some(best)
            },
            None => if placeable(uses[n - 1]) {
                Some(n - 1)
            } else {
                None
            },
        }
    }
}

/// A line break and the indentation of the next line.
pub open spec fn new_line(indent: Option<String>) -> Seq<char> {
    match indent {
        Some(indent) => seq!['\n'] + indent@,
        None => seq!['\n'],
    }
}

/// Where `use <path>;` goes in the module, with the text before and after it.
pub open spec fn insertion(module: Module, path: Seq<char>) -> Option<(Span, Seq<char>, Seq<char>)> {
    let n = module.uses@.len() as int;
    match (predecessor(module.uses@, path, n), earliest(module.uses@, n)) {
        (Some(i), _) => Some(
            (module.uses@[i].span.end(), new_line(module.uses@[i].indent), seq![]),
        ),
        (None, Some(i)) => Some(
            (module.uses@[i].span.start(), seq![], new_line(module.uses@[i].indent)),
        ),
        (None, None) => match module.inject {
            Some(span) => if span.expanded() {
                None
            } else {
                Some((span.start(), seq![], new_line(module.inject_indent)))
            },
            None => None,
        },
    }
}

fn line_break(indent: &Option<String>) -> (r: String)
    ensures
        r@ == new_line(*indent),
{
    let mut out: String = String::new();
    out.push('\n');
    if let Some(indent) = indent {
        proof {
            assert(out@ =~= seq!['\n']);
        }
        out.append(indent.as_str());
    }
    out
}

/// Where `use <use_path>;` goes: the place, and the text before and after it,
/// so that the suggestion is `{before}use {path};{after}`.
///
/// The new `use` lands in sorted position among the module's existing `use`
/// items: after the last one whose path sorts before `use_path`, or before the
/// first one. Distinct import suggestions therefore spread over distinct
/// insertion points, which matters where two different insertions at one byte
/// offset are rejected. A module without any `use` gets the new one at its
/// injection point.
pub fn use_insertion(module: &Module, use_path: &str) -> (r: Option<(Span, String, String)>)
    ensures
        match r {
            Some((span, before, after)) => insertion(*module, use_path@) == Some(
                (span, before@, after@),
            ),
            None => insertion(*module, use_path@) is None,
        },
{
    let mut last: Option<usize> = None;
    let mut first: Option<usize> = None;
    let mut i: usize = 0;
    while i < module.uses.len()
        invariant
            i <= module.uses.len(),
            match last {
                Some(best) => best < i && predecessor(module.uses@, use_path@, i as int) == Some(
                    best as int,
                ),
                None => predecessor(module.uses@, use_path@, i as int) is None,
            },
            match first {
                Some(best) => best < i && earliest(module.uses@, i as int) == Some(best as int),
                None => earliest(module.uses@, i as int) is None,
            },
        decreases module.uses.len() - i,
    {
        let item: &UseItem = &module.uses[i];
        if !item.span.from_expansion() {
            if let Some(source) = &item.text {
                let sorts = text::str_le(use_path_of(source.as_str()).as_str(), use_path);
                let later = match last {
                    Some(best) => module.uses[best].span.lo <= item.span.lo,
                    None => true,
                };
                if sorts && later {
                    last = Some(i);
                }
                let earlier = match first {
                    Some(best) => item.span.lo < module.uses[best].span.lo,
                    None => true,
                };
                if earlier {
                    first = Some(i);
                }
            }
        }
        i = i + 1;
    }
    if let Some(best) = last {
        return Some(
            (
                module.uses[best].span.shrink_to_hi(),
                line_break(&module.uses[best].indent),
                String::new(),
            ),
        );
    }
    if let Some(best) = first {
        return Some(
            (
                module.uses[best].span.shrink_to_lo(),
                String::new(),
                line_break(&module.uses[best].indent),
            ),
        );
    }
    match module.inject {
        Some(span) => if span.from_expansion() {
            None
        } else {
            Some((span.shrink_to_lo(), String::new(), line_break(&module.inject_indent)))
        },
        None => None,
    }
}

/// A new `use` goes behind an item that does not sort after it, and no such
/// item starts later in the source.
pub proof fn insertion_is_sorted(uses: Seq<UseItem>, path: Seq<char>, n: int, k: int)
    requires
        0 <= k < n <= uses.len(),
        precedes(uses[k], path),
    ensures
        predecessor(uses, path, n) matches Some(i) && 0 <= i < n && precedes(uses[i], path)
            && uses[k].span.lo <= uses[i].span.lo,
    decreases n,
{
    if k < n - 1 {
        insertion_is_sorted(uses, path, n - 1, k);
    } else {
        lemma_predecessor(uses, path, n - 1);
    }
}

proof fn lemma_predecessor(uses: Seq<UseItem>, path: Seq<char>, n: int)
    requires
        0 <= n <= uses.len(),
    ensures
        predecessor(uses, path, n) matches Some(i) ==> 0 <= i < n && precedes(uses[i], path),
    decreases n,
{
    if n > 0 {
        lemma_predecessor(uses, path, n - 1);
    }
}

/// With no import to go behind, a new `use` goes in front of all of them.
pub proof fn insertion_leads(uses: Seq<UseItem>, path: Seq<char>, n: int, k: int)
    requires
        0 <= k < n <= uses.len(),
        placeable(uses[k]),
    ensures
        earliest(uses, n) matches Some(i) && 0 <= i < n && placeable(uses[i]) && uses[i].span.lo
            <= uses[k].span.lo,
    decreases n,
{
    if k < n - 1 {
        insertion_leads(uses, path, n - 1, k);
    } else {
        lemma_earliest(uses, n - 1);
    }
}

proof fn lemma_earliest(uses: Seq<UseItem>, n: int)
    requires
        0 <= n <= uses.len(),
    ensures
        earliest(uses, n) matches Some(i) ==> 0 <= i < n && placeable(uses[i]),
    decreases n,
{
    if n > 0 {
        lemma_earliest(uses, n - 1);
    }
}

/// Where no inner scope decides, the module's names do: the bare name stands for
/// the item exactly where the module has it under that name; a name that the
/// module gives to anything else is in the way, and one that it does not give is
/// free, unless a glob import could give it.
pub proof fn module_names_decide(
    hir: Hir,
    module: Module,
    glob: bool,
    name: Seq<char>,
    ns: Namespace,
    target: Option<usize>,
    i: int,
)
    ensures
        0 <= i < module.children@.len() && module.children@[i].name@ == name
            && module.children@[i].ns == Some(ns) ==> {
            &&& in_module(hir, module, glob, name, ns, target) is Same || in_module(
                hir,
                module,
                glob,
                name,
                ns,
                target,
            ) is Conflict
            &&& module.children@[i].meaning.target(hir) == target ==> in_module(
                hir,
                module,
                glob,
                name,
                ns,
                target,
            ) is Same
        },
        in_module(hir, module, glob, name, ns, target) is Same ==> exists|k: int|
            0 <= k < module.children@.len() && (#[trigger] module.children@[k]).name@ == name
                && module.children@[k].ns == Some(ns) && module.children@[k].meaning.target(hir)
                == target,
        in_module(hir, module, glob, name, ns, target) is Free ==> !glob && forall|k: int|
            0 <= k < module.children@.len() ==> (#[trigger] module.children@[k]).name@ != name
                || module.children@[k].ns != Some(ns),
        in_module(hir, module, glob, name, ns, target) is Unknown ==> glob,
{
    if 0 <= i < module.children@.len() && module.children@[i].name@ == name
        && module.children@[i].ns == Some(ns) {
        assert(child_named(module.children@[i], name, ns));
    }
    if in_module(hir, module, glob, name, ns, target) is Same {
        let k = choose|k: int|
            0 <= k < module.children@.len() && child_named(
                #[trigger] module.children@[k],
                name,
                ns,
            ) && module.children@[k].meaning.target(hir) == target;
        assert(module.children@[k].name@ == name);
    }
    assert forall|k: int|
        0 <= k < module.children@.len() && !has_name(module, name, ns) implies (
    #[trigger] module.children@[k]).name@ != name || module.children@[k].ns != Some(ns) by {
        assert(!child_named(module.children@[k], name, ns));
    }
}

/// In a block a `let` that has ended gives its name to the value, so the bare name
/// no longer reaches anything else; one that is still to come does not.
pub proof fn lets_shadow_what_follows(
    hir: Hir,
    module: Module,
    n: usize,
    block: usize,
    stmt: usize,
    local: usize,
    pat: usize,
    k: int,
    pos: u32,
    name: Seq<char>,
    target: Option<usize>,
)
    requires
        hir.up(n) == Some(block),
        hir.kind(block) matches Kind::Block { stmts, tail: _ } && stmts@ == seq![stmt],
        hir.kind(stmt) == (Kind::LetDecl { local }),
        hir.kind(local) matches Kind::LetStmt { pat: bound, ty: _, init: _, els: _ } && bound == pat,
        0 <= k < hir.bindings(pat).len(),
        hir.kind(hir.bindings(pat)[k]) matches Kind::Binding { name: ident, id: _, sub: _ }
            && ident.name@ == name,
        hir.node(local).span.hi <= pos,
    ensures
        bare_meaning(hir, module, n, pos, name, Namespace::Value, target) is Conflict,
{
    let stmts = seq![stmt];
    reveal_with_fuel(block_check, 2);
    assert(binding_named(hir, hir.bindings(pat)[k], name));
    assert(binds(hir, pat, name));
    assert(stmts[0] == stmt);
}

} // verus!
