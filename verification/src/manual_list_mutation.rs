//! `manual_list_mutation`: a `List` edited through a snapshot, a mutation and a
//! `replace` where `List` has the method.

use crate::diagnostics;
use crate::diagnostics::{Applicability, Diagnostic, DiagnosticView, RemarkView};
use crate::hir;
use crate::hir::{Hir, Kind, Span};
use crate::known::Known;
use crate::lint::Lint;
use crate::list;
use crate::manual_signal_combinator;
use crate::text;
use vstd::prelude::*;

verus! {

/// Some expression in the subtree reads the local, closures included.
pub open spec fn local_used(hir: Hir, n: usize, local: usize) -> bool {
    exists|i: int|
        0 <= i < hir.exprs(n, true).len() && hir.local(#[trigger] hir.exprs(n, true)[i]) == Some(
            local,
        )
}

/// Whether some expression in the subtree reads the local, closures included.
pub fn is_local_used(hir: &Hir, n: usize, local: usize) -> (r: bool)
    requires
        hir.wf(),
        hir.has(n),
    ensures
        r == local_used(*hir, n, local),
{
    let list: Vec<usize> = hir.exprs_in(n, true);
    let mut i: usize = 0;
    while i < list.len()
        invariant
            i <= list.len(),
            hir.has(n),
            list@ == hir.exprs(n, true),
            hir::all_below(list@, n + 1),
            forall|k: int| 0 <= k < i ==> hir.local(#[trigger] list@[k]) != Some(local),
        decreases list.len() - i,
    {
        if let Some(id) = hir.res_local(list[i]) {
            if id == local {
                assert(hir.local(hir.exprs(n, true)[i as int]) == Some(local));
                return true;
            }
        }
        i = i + 1;
    }
    false
}

/// The local is read from statement `from` on, or by the tail.
pub open spec fn used_from(
    hir: Hir,
    stmts: Seq<usize>,
    tail: Option<usize>,
    from: int,
    local: usize,
) -> bool {
    ||| exists|i: int|
        from <= i < stmts.len() && 0 <= i && local_used(hir, #[trigger] stmts[i], local)
    ||| tail matches Some(tail) && local_used(hir, tail, local)
}

/// Whether the local is read from statement `from` on, or by the tail.
pub fn is_used_from(
    hir: &Hir,
    stmts: &Vec<usize>,
    tail: Option<usize>,
    from: usize,
    local: usize,
) -> (r: bool)
    requires
        hir.wf(),
        hir::all_below(stmts@, hir.nodes@.len() as int),
        hir::opt_below(tail, hir.nodes@.len() as int),
    ensures
        r == used_from(*hir, stmts@, tail, from as int, local),
{
    let mut i: usize = from;
    while i < stmts.len()
        invariant
            from <= i,
            hir.wf(),
            hir::all_below(stmts@, hir.nodes@.len() as int),
            forall|k: int| from <= k < i && k < stmts.len() ==> !local_used(
                *hir,
                #[trigger] stmts@[k],
                local,
            ),
        decreases stmts.len() - i,
    {
        if is_local_used(hir, stmts[i], local) {
            assert(local_used(*hir, stmts@[i as int], local));
            return true;
        }
        i = i + 1;
    }
    match tail {
        Some(tail) => is_local_used(hir, tail, local),
        None => false,
    }
}

/// The statement that `n` is the value of, by its own node.
pub open spec fn stmt_of_value(hir: Hir, p: usize, n: usize) -> Option<usize> {
    match hir.kind(p) {
        Kind::Semi { expr } => if expr == n {
            Some(p)
        } else {
            None
        },
        Kind::ExprStmt { expr } => if expr == n {
            Some(p)
        } else {
            None
        },
        _ => None,
    }
}

/// `let _ = n`.
pub open spec fn wild_let(hir: Hir, p: usize, n: usize) -> bool {
    match hir.kind(p) {
        Kind::LetStmt { pat, ty: _, init, els: _ } => init == Some(n) && hir.kind(pat) is Wild,
        _ => false,
    }
}

/// The statement that drops the value of `n`.
pub open spec fn dropped_at(hir: Hir, n: usize) -> Option<usize>
    decreases hir.nodes@.len() - n,
{
    match hir.up(n) {
        Some(p) => match hir.kind(p) {
            Kind::DropTemps { inner: _ } => dropped_at(hir, p),
            Kind::BlockExpr { block: _ } => dropped_at(hir, p),
            Kind::Block { stmts: _, tail } => if tail == Some(n) {
                dropped_at(hir, p)
            } else {
                None
            },
            Kind::LetStmt { .. } => if wild_let(hir, p, n) {
                match hir.up(p) {
                    Some(stmt) => if hir.kind(stmt) is LetDecl {
                        Some(stmt)
                    } else {
                        None
                    },
                    None => None,
                }
            } else {
                None
            },
            _ => stmt_of_value(hir, p, n),
        },
        None => None,
    }
}

/// The statement that the expression's value drops at: `expr;` (possibly under
/// drop-temps or a block tail, as in `{ list.replace(v) };`) or `let _ = expr;`.
/// Nothing when the value is bound or otherwise observed: `let old =
/// list.replace(v)` keeps the previous vector, and a tail in a used position
/// stays a use.
pub fn discarded_stmt(hir: &Hir, n: usize) -> (r: Option<usize>)
    requires
        hir.wf(),
        hir.has(n),
    ensures
        r == dropped_at(*hir, n),
        r matches Some(stmt) ==> hir.has(stmt),
    decreases hir.nodes.len() - n,
{
    let p: usize = match hir.parent(n) {
        Some(p) => p,
        None => {
            return None;
        },
    };
    proof {
        assert(hir.node_wf(p));
    }
    match &hir.nodes[p].kind {
        Kind::DropTemps { .. } | Kind::BlockExpr { .. } => discarded_stmt(hir, p),
        Kind::Block { tail, .. } => {
            let own: bool = match tail {
                Some(tail) => *tail == n,
                None => false,
            };
            if own {
                discarded_stmt(hir, p)
            } else {
                None
            }
        },
        Kind::LetStmt { pat, init, .. } => {
            let own: bool = match init {
                Some(init) => *init == n,
                None => false,
            };
            let wild: bool = match &hir.nodes[*pat].kind {
                Kind::Wild => true,
                _ => false,
            };
            if !own || !wild {
                return None;
            }
            match hir.parent(p) {
                Some(stmt) => match &hir.nodes[stmt].kind {
                    Kind::LetDecl { .. } => Some(stmt),
                    _ => None,
                },
                None => None,
            }
        },
        Kind::Semi { expr } | Kind::ExprStmt { expr } => if *expr == n {
            Some(p)
        } else {
            None
        },
        _ => None,
    }
}

/// The list that the statement binds a snapshot of to `v`.
pub open spec fn snapshot_bound(hir: Hir, stmt: usize, v: usize) -> Option<usize> {
    if hir.node(stmt).span.expanded() {
        None
    } else {
        match hir.kind(stmt) {
            Kind::LetDecl { local } => match hir.kind(local) {
                Kind::LetStmt { pat, ty: _, init: Some(init), els: _ } => match hir.kind(pat) {
                    Kind::Binding { name: _, id, sub: None } => if id == v {
                        list::snapshot_of(hir, hir.undropped(init))
                    } else {
                        None
                    },
                    _ => None,
                },
                _ => None,
            },
            _ => None,
        }
    }
}

/// The list, where the statement is `let <v> = <list>.snapshot();`.
pub fn snapshot_let(hir: &Hir, stmt: usize, v: usize) -> (r: Option<usize>)
    requires
        hir.wf(),
        hir.has(stmt),
    ensures
        r == snapshot_bound(*hir, stmt, v),
        r matches Some(list) ==> hir.has(list),
{
    if hir.nodes[stmt].span.from_expansion() {
        return None;
    }
    proof {
        assert(hir.node_wf(stmt));
    }
    let local: usize = match &hir.nodes[stmt].kind {
        Kind::LetDecl { local } => *local,
        _ => {
            return None;
        },
    };
    proof {
        assert(hir.node_wf(local));
    }
    match &hir.nodes[local].kind {
        Kind::LetStmt { pat, init: Some(init), .. } => match &hir.nodes[*pat].kind {
            Kind::Binding { id, sub: None, .. } => if *id == v {
                list::snapshot_receiver(hir, hir.peel_drop_temps(*init))
            } else {
                None
            },
            _ => None,
        },
        _ => None,
    }
}

/// How many arguments the mutation takes, where it is one that `Vec` and `List`
/// share.
pub open spec fn mutation_arity(name: Seq<char>) -> Option<nat> {
    if name == "push"@ || name == "remove"@ {
        Some(1)
    } else if name == "pop"@ || name == "clear"@ || name == "sort"@ {
        Some(0)
    } else if name == "insert"@ {
        Some(2)
    } else {
        None
    }
}

fn arity(name: &str) -> (r: Option<usize>)
    ensures
        match r {
            Some(n) => mutation_arity(name@) == Some(n as nat),
            None => mutation_arity(name@) is None,
        },
{
    if text::str_eq(name, "push") || text::str_eq(name, "remove") {
        Some(1)
    } else if text::str_eq(name, "pop") || text::str_eq(name, "clear") || text::str_eq(
        name,
        "sort",
    ) {
        Some(0)
    } else if text::str_eq(name, "insert") {
        Some(2)
    } else {
        None
    }
}

/// `List::pop` and `List::remove` are `#[must_use]`.
pub open spec fn must_use(name: Seq<char>) -> bool {
    name == "pop"@ || name == "remove"@
}

/// An assignment, or a block with statements.
pub open spec fn rebinding(hir: Hir, n: usize) -> bool {
    match hir.kind(n) {
        Kind::Assign { .. } => true,
        Kind::AssignOp { .. } => true,
        Kind::BlockExpr { block } => hir.has_stmts(block),
        _ => false,
    }
}

/// The expression contains an assignment or a block with statements.
pub open spec fn may_rebind(hir: Hir, n: usize) -> bool {
    exists|i: int|
        0 <= i < hir.exprs(n, true).len() && rebinding(hir, #[trigger] hir.exprs(n, true)[i])
}

fn is_rebinding(hir: &Hir, n: usize) -> (r: bool)
    requires
        hir.wf(),
        hir.has(n),
    ensures
        r == rebinding(*hir, n),
{
    proof {
        assert(hir.node_wf(n));
    }
    match &hir.nodes[n].kind {
        Kind::Assign { .. } | Kind::AssignOp { .. } => true,
        Kind::BlockExpr { block } => match &hir.nodes[*block].kind {
            Kind::Block { stmts, .. } => stmts.len() > 0,
            _ => false,
        },
        _ => false,
    }
}

/// Whether the argument contains an assignment or a block with statements:
/// either can rebind the receiver's base local between the snapshot's evaluation
/// and the `replace`'s, so the collapsed call could bind a different list.
pub fn arg_rebinds(hir: &Hir, n: usize) -> (r: bool)
    requires
        hir.wf(),
        hir.has(n),
    ensures
        r == may_rebind(*hir, n),
{
    let list: Vec<usize> = hir.exprs_in(n, true);
    let mut i: usize = 0;
    while i < list.len()
        invariant
            i <= list.len(),
            hir.wf(),
            hir.has(n),
            list@ == hir.exprs(n, true),
            hir::all_below(list@, n + 1),
            forall|k: int| 0 <= k < i ==> !rebinding(*hir, #[trigger] list@[k]),
        decreases list.len() - i,
    {
        if is_rebinding(hir, list[i]) {
            assert(rebinding(*hir, hir.exprs(n, true)[i as int]));
            return true;
        }
        i = i + 1;
    }
    false
}

/// No argument mentions `v` or can rebind the list.
pub open spec fn args_safe(hir: Hir, args: Seq<usize>, v: usize) -> bool {
    forall|i: int|
        0 <= i < args.len() ==> !local_used(hir, #[trigger] args[i], v) && !may_rebind(
            hir,
            args[i],
        )
}

fn are_safe(hir: &Hir, args: &Vec<usize>, v: usize) -> (r: bool)
    requires
        hir.wf(),
        hir::all_below(args@, hir.nodes@.len() as int),
    ensures
        r == args_safe(*hir, args@, v),
{
    let mut i: usize = 0;
    while i < args.len()
        invariant
            i <= args.len(),
            hir.wf(),
            hir::all_below(args@, hir.nodes@.len() as int),
            forall|k: int|
                0 <= k < i ==> !local_used(*hir, #[trigger] args@[k], v) && !may_rebind(
                    *hir,
                    args@[k],
                ),
        decreases args.len() - i,
    {
        if is_local_used(hir, args[i], v) || arg_rebinds(hir, args[i]) {
            assert(local_used(*hir, args@[i as int], v) || may_rebind(*hir, args@[i as int]));
            return false;
        }
        i = i + 1;
    }
    true
}

/// A round trip's one mutation.
#[derive(Debug)]
pub struct Mutation {
    /// The call `v.<method>(<args>)`.
    pub call: usize,
    /// The statement was a `let _ =`.
    pub let_underscore: bool,
}

/// The call of a statement, and whether it is a `let _ =`.
pub open spec fn stmt_call(hir: Hir, stmt: usize) -> Option<(usize, bool)> {
    match hir.kind(stmt) {
        Kind::Semi { expr } => Some((hir.undropped(expr), false)),
        Kind::ExprStmt { expr } => Some((hir.undropped(expr), false)),
        Kind::LetDecl { local } => match hir.kind(local) {
            Kind::LetStmt { pat, ty: _, init: Some(init), els: None } => if hir.kind(
                pat,
            ) is Wild {
                Some((hir.undropped(init), true))
            } else {
                None
            },
            _ => None,
        },
        _ => None,
    }
}

fn call_of_stmt(hir: &Hir, stmt: usize) -> (r: Option<(usize, bool)>)
    requires
        hir.wf(),
        hir.has(stmt),
    ensures
        r == stmt_call(*hir, stmt),
        r matches Some((call, _)) ==> hir.has(call),
{
    proof {
        assert(hir.node_wf(stmt));
    }
    match &hir.nodes[stmt].kind {
        Kind::Semi { expr } | Kind::ExprStmt { expr } => Some((hir.peel_drop_temps(*expr), false)),
        Kind::LetDecl { local } => {
            proof {
                assert(hir.node_wf(*local));
            }
            match &hir.nodes[*local].kind {
                Kind::LetStmt { pat, init: Some(init), els: None, .. } => {
                    match &hir.nodes[*pat].kind {
                        Kind::Wild => Some((hir.peel_drop_temps(*init), true)),
                        _ => None,
                    }
                },
                _ => None,
            }
        },
        _ => None,
    }
}

/// The name and arguments of a method call.
pub open spec fn call_name(hir: Hir, n: usize) -> Seq<char> {
    match hir.kind(n) {
        Kind::MethodCall { name, receiver: _, args: _ } => name.name@,
        _ => seq![],
    }
}

pub open spec fn call_operands(hir: Hir, n: usize) -> Seq<usize> {
    match hir.kind(n) {
        Kind::MethodCall { name: _, receiver: _, args } => args@,
        _ => seq![],
    }
}

/// The call mutates `v` in a way that `List` has too.
pub open spec fn mutates(hir: Hir, n: usize, v: usize) -> bool {
    match hir.kind(n) {
        Kind::MethodCall { name, receiver, args } => {
            &&& !hir.node(n).span.expanded()
            &&& mutation_arity(name.name@) == Some(args@.len())
            &&& hir.local(hir.evaluated(receiver)) == Some(v)
            &&& args_safe(hir, args@, v)
        },
        _ => false,
    }
}

/// The mutation that a statement is.
pub open spec fn mutation_of(hir: Hir, stmt: usize, v: usize) -> Option<(usize, bool)> {
    match stmt_call(hir, stmt) {
        Some((call, let_underscore)) => if !hir.node(stmt).span.expanded() && mutates(
            hir,
            call,
            v,
        ) {
            Some((call, let_underscore))
        } else {
            None
        },
        None => None,
    }
}

fn is_mutation(hir: &Hir, n: usize, v: usize) -> (r: bool)
    requires
        hir.wf(),
        hir.has(n),
    ensures
        r == mutates(*hir, n, v),
{
    proof {
        assert(hir.node_wf(n));
    }
    match &hir.nodes[n].kind {
        Kind::MethodCall { name, receiver, args } => {
            if hir.nodes[n].span.from_expansion() {
                return false;
            }
            let fits: bool = match arity(name.name.as_str()) {
                Some(count) => count == args.len(),
                None => false,
            };
            if !fits {
                return false;
            }
            let own: bool = match hir.res_local(hir.body_expr(*receiver)) {
                Some(id) => id == v,
                None => false,
            };
            own && are_safe(hir, args, v)
        },
        _ => false,
    }
}

/// The round trip's one mutation, where the statement is `v.<method>(<args>);`
/// or `let _ = v.<method>(<args>);` for a method that `List` has, on local `v`,
/// whose arguments do not mention `v` and cannot rebind the list's base local.
pub fn mutation_stmt(hir: &Hir, stmt: usize, v: usize) -> (r: Option<Mutation>)
    requires
        hir.wf(),
        hir.has(stmt),
    ensures
        match r {
            Some(m) => mutation_of(*hir, stmt, v) == Some((m.call, m.let_underscore)) && hir.has(
                m.call,
            ) && hir.kind(m.call) is MethodCall,
            None => mutation_of(*hir, stmt, v) is None,
        },
{
    if hir.nodes[stmt].span.from_expansion() {
        return None;
    }
    match call_of_stmt(hir, stmt) {
        Some((call, let_underscore)) => if is_mutation(hir, call, v) {
            Some(Mutation { call, let_underscore })
        } else {
            None
        },
        None => None,
    }
}

/// An empty vector.
pub open spec fn empty_vec(hir: Hir, n: usize) -> bool {
    hir.calls_item(n, Known::VecNew) || hir.resolves_item(n, Known::DefaultFn)
}

/// Whether the argument is an empty vector: `Vec::new()` (also the `vec![]`
/// lowering) or a `Default::default()` in `Vec` position.
pub fn is_empty_vec(hir: &Hir, n: usize) -> (r: bool)
    requires
        hir.has(n),
    ensures
        r == empty_vec(*hir, n),
{
    hir.is_call_of(n, Known::VecNew) || hir.resolves_of(n, Known::DefaultFn)
}

/// Two expressions have the same value.
pub open spec fn same_value(hir: Hir, a: usize, b: usize) -> bool {
    hir.node(a).value_class is Some && hir.node(a).value_class == hir.node(b).value_class
}

/// Whether two expressions have the same value.
pub fn eq_expr_value(hir: &Hir, a: usize, b: usize) -> (r: bool)
    requires
        hir.has(a),
        hir.has(b),
    ensures
        r == same_value(*hir, a, b),
{
    match (hir.nodes[a].value_class, hir.nodes[b].value_class) {
        (Some(a), Some(b)) => a == b,
        _ => false,
    }
}

/// `<receiver>.<name>(<args>)` with a prefix and a suffix.
pub open spec fn call_text(
    hir: Hir,
    receiver: usize,
    name: Seq<char>,
    args: Seq<usize>,
    let_underscore: bool,
    semi: bool,
) -> Seq<char> {
    (if let_underscore {
        "let _ = "@
    } else {
        ""@
    }) + (hir.source_or_dots(receiver) + "."@ + name + "("@ + text::joined(
        manual_signal_combinator::arg_sources(hir, args, args.len() as int),
        ", "@,
    )) + (if semi {
        ");"@
    } else {
        ")"@
    })
}

/// What is left of a full applicability once the call is spelled.
pub open spec fn call_applicability(hir: Hir, receiver: usize, args: Seq<usize>) -> Applicability {
    manual_signal_combinator::after_args(
        hir,
        args,
        args.len() as int,
        hir.after_source(receiver, Applicability::MachineApplicable),
    )
}

/// `<receiver>.<name>(<args>)` as source text: with `let _ =` in front when the
/// caller asks for the discard spelling, with a semicolon behind when the
/// replaced span ends at one.
fn method_call_text(
    hir: &Hir,
    receiver: usize,
    name: &str,
    args: &Vec<usize>,
    let_underscore: bool,
    semi: bool,
) -> (r: (String, Applicability))
    requires
        hir.has(receiver),
        hir::all_below(args@, hir.nodes@.len() as int),
    ensures
        r.0@ == call_text(*hir, receiver, name@, args@, let_underscore, semi),
        r.1 == call_applicability(*hir, receiver, args@),
{
    let (source, left) = hir.snippet_with_applicability(receiver, Applicability::MachineApplicable);
    let (list, applicability) = manual_signal_combinator::arg_list(hir, args, left);
    let call: String = text::cat5(source.as_str(), ".", name, "(", list.as_str());
    (
        text::cat3(
            if let_underscore {
                "let _ = "
            } else {
                ""
            },
            call.as_str(),
            if semi {
                ");"
            } else {
                ")"
            },
        ),
        applicability,
    )
}

/// What is said of a round trip.
pub open spec fn trip_finding(
    span: Span,
    name: Seq<char>,
    code: Seq<char>,
    applicability: Applicability,
) -> DiagnosticView {
    DiagnosticView::with_sugg(
        Lint::ManualListMutation,
        span,
        "this snapshot/replace round trip restates `List::"@ + name + "`"@,
        "use the `List` method"@,
        code,
        applicability,
    )
}

fn report(span: Span, name: &str, code: String, applicability: Applicability) -> (r: Diagnostic)
    ensures
        r@ == trip_finding(span, name@, code@, applicability),
{
    Diagnostic::with_sugg(
        Lint::ManualListMutation,
        span,
        text::cat3("this snapshot/replace round trip restates `List::", name, "`").as_str(),
        "use the `List` method",
        code,
        applicability,
    )
}

/// What is said of a `replace` of the list by `arg`, the third of three
/// statements of a block.
pub open spec fn stmts_finding(
    hir: Hir,
    receiver: usize,
    v: usize,
    stmt: usize,
    block: usize,
    stmts: Seq<usize>,
    tail: Option<usize>,
    index: int,
) -> Option<DiagnosticView> {
    if index < 2 || used_from(hir, stmts, tail, index + 1, v) {
        None
    } else {
        match (mutation_of(hir, stmts[index - 1], v), snapshot_bound(hir, stmts[index - 2], v)) {
            (Some((call, let_underscore)), Some(snapshot)) => {
                let name = call_name(hir, call);
                let args = call_operands(hir, call);
                let span = hir.node(stmts[index - 2]).span.through(hir.node(stmt).span);
                if same_value(hir, snapshot, receiver) {
                    Some(
                        trip_finding(
                            span,
                            name,
                            call_text(
                                hir,
                                receiver,
                                name,
                                args,
                                let_underscore || must_use(name),
                                true,
                            ),
                            call_applicability(hir, receiver, args).guarded(
                                hir.source_between(block, span.lo, span.hi),
                            ),
                        ),
                    )
                } else {
                    None
                }
            },
            _ => None,
        }
    }
}

/// What is said of `list.replace(v)`.
pub open spec fn local_finding(hir: Hir, stmt: usize, receiver: usize, arg: usize) -> Option<
    DiagnosticView,
> {
    match (hir.local(arg), hir.up(stmt)) {
        (Some(v), Some(block)) => match hir.kind(block) {
            Kind::Block { stmts, tail } => match Hir::place(stmts@, stmt, 0) {
                Some(index) => stmts_finding(
                    hir,
                    receiver,
                    v,
                    stmt,
                    block,
                    stmts@,
                    tail,
                    index,
                ),
                None => None,
            },
            _ => None,
        },
        _ => None,
    }
}

fn find_stmt(stmts: &Vec<usize>, stmt: usize) -> (r: Option<usize>)
    ensures
        match r {
            Some(i) => Hir::place(stmts@, stmt, 0) == Some(i as int) && i < stmts.len(),
            None => Hir::place(stmts@, stmt, 0) is None,
        },
{
    let mut i: usize = 0;
    while i < stmts.len()
        invariant
            i <= stmts.len(),
            Hir::place(stmts@, stmt, 0) == Hir::place(stmts@, stmt, i as int),
        decreases stmts.len() - i,
    {
        if stmts[i] == stmt {
            return Some(i);
        }
        i = i + 1;
    }
    None
}

fn check_stmts(
    hir: &Hir,
    receiver: usize,
    v: usize,
    stmt: usize,
    block: usize,
    stmts: &Vec<usize>,
    tail: Option<usize>,
    index: usize,
) -> (r: Option<Diagnostic>)
    requires
        hir.wf(),
        hir.has(receiver),
        hir.has(stmt),
        hir.has(block),
        hir::all_below(stmts@, hir.nodes@.len() as int),
        hir::opt_below(tail, hir.nodes@.len() as int),
        index < stmts.len(),
    ensures
        diagnostics::found(r) == stmts_finding(
            *hir,
            receiver,
            v,
            stmt,
            block,
            stmts@,
            tail,
            index as int,
        ),
{
    if index < 2 || is_used_from(hir, stmts, tail, index + 1, v) {
        return None;
    }
    let mutation: Mutation = match mutation_stmt(hir, stmts[index - 1], v) {
        Some(mutation) => mutation,
        None => {
            return None;
        },
    };
    let snapshot: usize = match snapshot_let(hir, stmts[index - 2], v) {
        Some(snapshot) => snapshot,
        None => {
            return None;
        },
    };
    if !eq_expr_value(hir, snapshot, receiver) {
        return None;
    }
    proof {
        assert(hir.node_wf(mutation.call));
    }
    match &hir.nodes[mutation.call].kind {
        Kind::MethodCall { name, args, .. } => {
            let named: &str = name.name.as_str();
            let discards: bool = mutation.let_underscore || text::str_eq(named, "pop")
                || text::str_eq(named, "remove");
            let (code, applicability) = method_call_text(
                hir,
                receiver,
                named,
                args,
                discards,
                true,
            );
            let span: Span = hir.nodes[stmts[index - 2]].span.to(hir.nodes[stmt].span);
            proof {
                assert(hir.node_wf(block));
            }
            let guarded: Applicability = diagnostics::comment_guard(
                &hir.snippet_between(block, span.lo, span.hi),
                applicability,
            );
            Some(report(span, named, code, guarded))
        },
        _ => None,
    }
}

/// `let mut v = list.snapshot(); v.<method>(<args>); list.replace(v);`: three
/// statements in one block, `v` unread after the `replace`. `v` must be a
/// snapshot of the list being replaced: a copy of another list pushed onto this
/// one is not `list.push`.
pub fn check_stmt_spelling(hir: &Hir, stmt: usize, receiver: usize, arg: usize) -> (r: Option<
    Diagnostic,
>)
    requires
        hir.wf(),
        hir.has(stmt),
        hir.has(receiver),
        hir.has(arg),
    ensures
        diagnostics::found(r) == local_finding(*hir, stmt, receiver, arg),
{
    let v: usize = match hir.res_local(arg) {
        Some(v) => v,
        None => {
            return None;
        },
    };
    let block: usize = match hir.parent(stmt) {
        Some(block) => block,
        None => {
            return None;
        },
    };
    proof {
        assert(hir.node_wf(block));
    }
    match &hir.nodes[block].kind {
        Kind::Block { stmts, tail } => match find_stmt(stmts, stmt) {
            Some(index) => check_stmts(hir, receiver, v, stmt, block, stmts, *tail, index),
            None => None,
        },
        _ => None,
    }
}

/// What is said of a `replace` of the list by a block.
pub open spec fn block_finding(hir: Hir, n: usize, stmt: usize, receiver: usize, block: usize) -> Option<
    DiagnosticView,
> {
    match hir.kind(block) {
        Kind::Block { stmts, tail: Some(tail) } => match hir.local(hir.evaluated(tail)) {
            Some(v) => if stmts@.len() != 2 || hir.node(block).span.expanded() {
                None
            } else {
                match (mutation_of(hir, stmts@[1], v), snapshot_bound(hir, stmts@[0], v)) {
                    (Some((call, let_underscore)), Some(snapshot)) => {
                        let name = call_name(hir, call);
                        let args = call_operands(hir, call);
                        if same_value(hir, snapshot, receiver) {
                            Some(
                                trip_finding(
                                    hir.node(n).span,
                                    name,
                                    call_text(
                                        hir,
                                        receiver,
                                        name,
                                        args,
                                        (let_underscore || must_use(name)) && !(hir.kind(
                                            stmt,
                                        ) is LetDecl),
                                        false,
                                    ),
                                    call_applicability(hir, receiver, args).guarded(
                                        hir.source(n),
                                    ),
                                ),
                            )
                        } else {
                            None
                        }
                    },
                    _ => None,
                }
            },
            None => None,
        },
        _ => None,
    }
}

/// `list.replace({ let mut v = list.snapshot(); v.<method>(<args>); v })`: the
/// round trip folded into the argument block. A `let _ =` prefix parses as a
/// statement only when the `replace` itself was a bare statement; inside
/// `let _ = list.replace(..)` the existing binding already discards.
pub fn check_block_spelling(hir: &Hir, n: usize, stmt: usize, receiver: usize, block: usize) -> (r:
    Option<Diagnostic>)
    requires
        hir.wf(),
        hir.has(n),
        hir.has(stmt),
        hir.has(receiver),
        hir.has(block),
    ensures
        diagnostics::found(r) == block_finding(*hir, n, stmt, receiver, block),
{
    if hir.nodes[block].span.from_expansion() {
        return None;
    }
    proof {
        assert(hir.node_wf(block));
    }
    let (stmts, tail) = match &hir.nodes[block].kind {
        Kind::Block { stmts, tail: Some(tail) } => (stmts, *tail),
        _ => {
            return None;
        },
    };
    if stmts.len() != 2 {
        return None;
    }
    let v: usize = match hir.res_local(hir.body_expr(tail)) {
        Some(v) => v,
        None => {
            return None;
        },
    };
    let mutation: Mutation = match mutation_stmt(hir, stmts[1], v) {
        Some(mutation) => mutation,
        None => {
            return None;
        },
    };
    let snapshot: usize = match snapshot_let(hir, stmts[0], v) {
        Some(snapshot) => snapshot,
        None => {
            return None;
        },
    };
    if !eq_expr_value(hir, snapshot, receiver) {
        return None;
    }
    proof {
        assert(hir.node_wf(mutation.call));
    }
    let bare: bool = match &hir.nodes[stmt].kind {
        Kind::LetDecl { .. } => false,
        _ => true,
    };
    match &hir.nodes[mutation.call].kind {
        Kind::MethodCall { name, args, .. } => {
            let named: &str = name.name.as_str();
            let discards: bool = (mutation.let_underscore || text::str_eq(named, "pop")
                || text::str_eq(named, "remove")) && bare;
            let (code, applicability) = method_call_text(
                hir,
                receiver,
                named,
                args,
                discards,
                false,
            );
            proof {
                assert(hir.node_wf(n));
            }
            let guarded: Applicability = diagnostics::comment_guard(
                &hir.nodes[n].snippet,
                applicability,
            );
            Some(report(hir.nodes[n].span, named, code, guarded))
        },
        _ => None,
    }
}

/// What is said of a `replace` by an empty vector.
pub open spec fn clear_finding(hir: Hir, n: usize, receiver: usize) -> DiagnosticView {
    DiagnosticView::with_sugg(
        Lint::ManualListMutation,
        hir.node(n).span,
        "this `replace` with an empty vector is `List::clear`"@,
        "use the `List` method"@,
        call_text(hir, receiver, "clear"@, seq![], false, false),
        call_applicability(hir, receiver, seq![]).guarded(hir.source(n)),
    )
}

/// The argument is a plain block.
pub open spec fn plain_block(hir: Hir, arg: usize) -> Option<usize> {
    match hir.kind(arg) {
        Kind::BlockExpr { block } => if hir.node(block).special_block {
            None
        } else {
            Some(block)
        },
        _ => None,
    }
}

/// What is said of an expression.
pub open spec fn finding_at(hir: Hir, n: usize) -> Option<DiagnosticView> {
    match (list::replacement_of(hir, n), dropped_at(hir, n)) {
        (Some((receiver, arg)), Some(stmt)) => {
            let arg = hir.undropped(arg);
            if hir.kind(arg) is Path {
                local_finding(hir, stmt, receiver, arg)
            } else {
                match plain_block(hir, arg) {
                    Some(block) => block_finding(hir, n, stmt, receiver, block),
                    None => if empty_vec(hir, arg) {
                        Some(clear_finding(hir, n, receiver))
                    } else {
                        None
                    },
                }
            }
        },
        _ => None,
    }
}

fn report_clear(hir: &Hir, n: usize, receiver: usize) -> (r: Diagnostic)
    requires
        hir.wf(),
        hir.has(n),
        hir.has(receiver),
    ensures
        r@ == clear_finding(*hir, n, receiver),
{
    proof {
        assert(hir.node_wf(n));
    }
    let none: Vec<usize> = Vec::new();
    proof {
        assert(none@ =~= seq![]);
    }
    let (code, applicability) = method_call_text(hir, receiver, "clear", &none, false, false);
    let guarded: Applicability = diagnostics::comment_guard(&hir.nodes[n].snippet, applicability);
    Diagnostic::with_sugg(
        Lint::ManualListMutation,
        hir.nodes[n].span,
        "this `replace` with an empty vector is `List::clear`",
        "use the `List` method",
        code,
        guarded,
    )
}

/// Flags a `List` edited through a snapshot, a mutation and a `replace` where
/// `List` has the same method, or cleared through `replace` with an empty vector.
/// `replace` returns the previous vector: the round trip is a mutation only when
/// that result is dropped. An `unsafe`, labelled or `try` block wraps the round
/// trip in a context the collapsed call would lose, so only a plain one is
/// replaced.
pub fn check_expr(hir: &Hir, n: usize) -> (r: Option<Diagnostic>)
    requires
        hir.wf(),
        hir.has(n),
    ensures
        diagnostics::found(r) == finding_at(*hir, n),
{
    let (receiver, arg) = match list::replace_call(hir, n) {
        Some(found) => found,
        None => {
            return None;
        },
    };
    let stmt: usize = match discarded_stmt(hir, n) {
        Some(stmt) => stmt,
        None => {
            return None;
        },
    };
    let arg: usize = hir.peel_drop_temps(arg);
    proof {
        assert(hir.node_wf(arg));
    }
    match &hir.nodes[arg].kind {
        Kind::Path { .. } => {
            return check_stmt_spelling(hir, stmt, receiver, arg);
        },
        Kind::BlockExpr { block } => {
            if !hir.nodes[*block].special_block {
                return check_block_spelling(hir, n, stmt, receiver, *block);
            }
        },
        _ => {},
    }
    if is_empty_vec(hir, arg) {
        Some(report_clear(hir, n, receiver))
    } else {
        None
    }
}

/// The mutators of a vector that a list has too, and their operands.
pub open spec fn list_mutator(name: Seq<char>, operands: nat) -> bool {
    ||| name == "push"@ && operands == 1
    ||| name == "pop"@ && operands == 0
    ||| name == "insert"@ && operands == 2
    ||| name == "remove"@ && operands == 1
    ||| name == "clear"@ && operands == 0
    ||| name == "sort"@ && operands == 0
}

/// The code calls the method on the list with those operands, as a statement of
/// its own or as an expression, its result dropped or not.
pub open spec fn calls_on_list(
    hir: Hir,
    receiver: usize,
    name: Seq<char>,
    args: Seq<usize>,
    code: Seq<char>,
) -> bool {
    let call = hir.source_or_dots(receiver) + "."@ + name + "("@ + text::joined(
        Seq::new(args.len(), |i: int| hir.source_or_dots(args[i])),
        ", "@,
    ) + ")"@;
    code == call || code == call + ";"@ || code == "let _ = "@ + call || code == "let _ = "@ + call
        + ";"@
}

/// The call changes the local `v` by one of the mutators, with operands that do
/// not read `v`.
pub open spec fn mutates_local(
    hir: Hir,
    call: usize,
    v: usize,
    name: Seq<char>,
    args: Seq<usize>,
) -> bool {
    &&& hir.kind(call) matches Kind::MethodCall { name: method, receiver, args: operands }
    &&& method.name@ == name
    &&& operands@ == args
    &&& hir.local(hir.evaluated(receiver)) == Some(v)
    &&& list_mutator(name, args.len())
    &&& forall|i: int|
        0 <= i < args.len() ==> !local_used(hir, #[trigger] args[i], v)
}

/// The `let` statement binds `v` to `x.snapshot()`.
pub open spec fn binds_snapshot(hir: Hir, stmt: usize, v: usize, x: usize) -> bool {
    &&& hir.kind(stmt) matches Kind::LetDecl { local }
    &&& hir.kind(local) matches Kind::LetStmt { pat, ty: _, init: Some(init), els: _ }
    &&& hir.kind(pat) matches Kind::Binding { name: _, id, sub: None }
    &&& id == v
    &&& list::snapshot_of(hir, hir.undropped(init)) == Some(x)
}

proof fn lemma_call_text(
    hir: Hir,
    receiver: usize,
    name: Seq<char>,
    args: Seq<usize>,
    let_underscore: bool,
    semi: bool,
)
    ensures
        calls_on_list(
            hir,
            receiver,
            name,
            args,
            call_text(hir, receiver, name, args, let_underscore, semi),
        ),
{
    reveal_strlit("");
    reveal_strlit(")");
    reveal_strlit(";");
    reveal_strlit(");");
    let list = Seq::new(args.len(), |i: int| hir.source_or_dots(args[i]));
    assert(manual_signal_combinator::arg_sources(hir, args, args.len() as int) =~= list);
    let joined = text::joined(list, ", "@);
    let front = hir.source_or_dots(receiver) + "."@ + name + "("@ + joined;
    assert(");"@ =~= ")"@ + ";"@);
    assert(""@ + front + ")"@ =~= front + ")"@);
    assert(""@ + front + ");"@ =~= front + ")"@ + ";"@);
    assert("let _ = "@ + front + ")"@ =~= "let _ = "@ + (front + ")"@));
    assert("let _ = "@ + front + ");"@ =~= "let _ = "@ + (front + ")"@) + ";"@);
    let code = call_text(hir, receiver, name, args, let_underscore, semi);
    assert(code == (if let_underscore {
        "let _ = "@
    } else {
        ""@
    }) + front + (if semi {
        ");"@
    } else {
        ")"@
    }));
}

/// What is proposed for a snapshot that is changed and put back is the same change
/// on the list itself: the method and the operands of the change, on the list
/// that the snapshot was taken of; for a list emptied by a new vector it is
/// `clear`.
pub proof fn list_fixes_repeat_the_change(hir: Hir, n: usize) -> (r: (
    usize,
    usize,
    Seq<char>,
    Seq<usize>,
    usize,
    usize,
))
    requires
        finding_at(hir, n) is Some,
    ensures
        ({
            let (receiver, arg, name, args, call, v) = r;
            let finding = finding_at(hir, n)->0;
            &&& list::replacement_of(hir, n) == Some((receiver, arg))
            &&& finding.remarks.len() == 1
            &&& finding.remarks[0] matches RemarkView::Suggestion {
                label: _,
                span: _,
                code,
                applicability: _,
            }
            &&& calls_on_list(hir, receiver, name, args, code)
            &&& {
                ||| name == "clear"@ && args.len() == 0 && empty_vec(hir, hir.undropped(arg))
                ||| mutates_local(hir, call, v, name, args) && exists|stmt: usize, x: usize|
                    #[trigger] binds_snapshot(hir, stmt, v, x) && same_value(hir, x, receiver)
            }
        }),
{
    let (receiver, arg) = list::replacement_of(hir, n)->0;
    let stmt = dropped_at(hir, n)->0;
    let value = hir.undropped(arg);
    if hir.kind(value) is Path {
        let v = hir.local(value)->0;
        let block = hir.up(stmt)->0;
        match hir.kind(block) {
            Kind::Block { stmts, tail } => {
                let index = Hir::place(stmts@, stmt, 0)->0;
                let (call, let_underscore) = mutation_of(hir, stmts@[index - 1], v)->0;
                let x = snapshot_bound(hir, stmts@[index - 2], v)->0;
                let name = call_name(hir, call);
                let args = call_operands(hir, call);
                assert(binds_snapshot(hir, stmts@[index - 2], v, x));
                lemma_call_text(
                    hir,
                    receiver,
                    name,
                    args,
                    let_underscore || must_use(name),
                    true,
                );
                (receiver, arg, name, args, call, v)
            },
            _ => (receiver, arg, seq![], seq![], 0, 0),
        }
    } else if let Some(block) = plain_block(hir, value) {
        match hir.kind(block) {
            Kind::Block { stmts, tail: Some(tail) } => {
                let v = hir.local(hir.evaluated(tail))->0;
                let (call, let_underscore) = mutation_of(hir, stmts@[1], v)->0;
                let x = snapshot_bound(hir, stmts@[0], v)->0;
                let name = call_name(hir, call);
                let args = call_operands(hir, call);
                assert(binds_snapshot(hir, stmts@[0], v, x));
                lemma_call_text(
                    hir,
                    receiver,
                    name,
                    args,
                    (let_underscore || must_use(name)) && !(hir.kind(stmt) is LetDecl),
                    false,
                );
                (receiver, arg, name, args, call, v)
            },
            _ => (receiver, arg, seq![], seq![], 0, 0),
        }
    } else {
        lemma_call_text(hir, receiver, "clear"@, seq![], false, false);
        (receiver, arg, "clear"@, seq![], 0, 0)
    }
}

/// A local counts as read from a statement on exactly where some expression in
/// that statement, one behind it or the tail is the local, in a closure too.
pub proof fn uses_are_reads(
    hir: Hir,
    stmts: Seq<usize>,
    tail: Option<usize>,
    from: int,
    local: usize,
)
    requires
        0 <= from,
    ensures
        used_from(hir, stmts, tail, from, local) <==> (exists|k: int, i: int|
            from <= k < stmts.len() && 0 <= i < hir.exprs(stmts[k], true).len() && hir.local(
                #[trigger] hir.exprs(stmts[k], true)[i],
            ) == Some(local)) || (tail matches Some(tail) && exists|i: int|
            0 <= i < hir.exprs(tail, true).len() && hir.local(#[trigger] hir.exprs(tail, true)[i])
                == Some(local)),
{
    if exists|k: int| from <= k < stmts.len() && local_used(hir, #[trigger] stmts[k], local) {
        let k = choose|k: int|
            from <= k < stmts.len() && local_used(hir, #[trigger] stmts[k], local);
        let i = choose|i: int|
            0 <= i < hir.exprs(stmts[k], true).len() && hir.local(
                #[trigger] hir.exprs(stmts[k], true)[i],
            ) == Some(local);
        assert(hir.local(hir.exprs(stmts[k], true)[i]) == Some(local));
    }
    if exists|k: int, i: int|
        from <= k < stmts.len() && 0 <= i < hir.exprs(stmts[k], true).len() && hir.local(
            #[trigger] hir.exprs(stmts[k], true)[i],
        ) == Some(local) {
        let (k, i) = choose|k: int, i: int|
            from <= k < stmts.len() && 0 <= i < hir.exprs(stmts[k], true).len() && hir.local(
                #[trigger] hir.exprs(stmts[k], true)[i],
            ) == Some(local);
        assert(local_used(hir, stmts[k], local));
    }
}

} // verus!
