//! `manual_binding_mutation`: a `Binding` mutation or `set` conversion written by
//! hand where `Binding` has the named method.

use crate::anyview;
use crate::binding;
use crate::diagnostics;
use crate::diagnostics::{Applicability, Diagnostic, DiagnosticView, RemarkView};
use crate::hir;
use crate::hir::{BinOp, Hir, Kind, Span, Trait, TyKind, UnOp};
use crate::known::Known;
use crate::lint::Lint;
use crate::manual_list_mutation;
use crate::manual_signal_combinator;
use crate::text;
use vstd::prelude::*;

verus! {

/// The local that an expression is, blocks around it aside.
pub open spec fn peeled_local(hir: Hir, n: usize) -> Option<usize> {
    hir.local(anyview::peeled(hir, n))
}

fn local_of(hir: &Hir, n: usize) -> (r: Option<usize>)
    requires
        hir.wf(),
        hir.has(n),
    ensures
        r == peeled_local(*hir, n),
{
    hir.res_local(anyview::peel(hir, n))
}

/// The expression is `*v`.
pub open spec fn derefs_param(hir: Hir, n: usize, param: usize) -> bool {
    match hir.kind(anyview::peeled(hir, n)) {
        Kind::Unary { op: UnOp::Deref, operand } => peeled_local(hir, operand) == Some(param),
        _ => false,
    }
}

/// Whether the expression is the assignment place `*v`: a deref of the
/// `with_mut` closure parameter.
pub fn is_deref_of_param(hir: &Hir, n: usize, param: usize) -> (r: bool)
    requires
        hir.wf(),
        hir.has(n),
    ensures
        r == derefs_param(*hir, n, param),
{
    let inner: usize = anyview::peel(hir, n);
    proof {
        assert(hir.node_wf(inner));
    }
    match &hir.nodes[inner].kind {
        Kind::Unary { op: UnOp::Deref, operand } => match local_of(hir, *operand) {
            Some(id) => id == param,
            None => false,
        },
        _ => false,
    }
}

/// The expression reads the closure parameter by deref or by cloning it.
pub open spec fn reads_param(hir: Hir, n: usize, param: usize) -> bool
    decreases n,
{
    let inner = anyview::peeled(hir, n);
    if derefs_param(hir, n, param) {
        true
    } else if hir.resolves_item(inner, Known::Clone) && inner <= n {
        match hir.first_operand(inner) {
            Some(receiver) => peeled_local(hir, receiver) == Some(param) || (receiver < inner
                && reads_param(hir, receiver, param)),
            None => false,
        }
    } else {
        false
    }
}

/// Whether the expression reads the `with_mut` closure parameter, the `&mut T`
/// slot, either by deref (`*v`, `&*v`) or by cloning it (`v.clone()`,
/// `(*v).clone()`). Those are the reads the named `Binding` methods perform
/// themselves.
pub fn is_param_read(hir: &Hir, n: usize, param: usize) -> (r: bool)
    requires
        hir.wf(),
        hir.has(n),
    ensures
        r == reads_param(*hir, n, param),
    decreases n,
{
    let inner: usize = anyview::peel(hir, n);
    if is_deref_of_param(hir, n, param) {
        return true;
    }
    if !hir.resolves_of(inner, Known::Clone) {
        return false;
    }
    match hir.first_arg(inner) {
        Some(receiver) => {
            let own: bool = match local_of(hir, receiver) {
                Some(id) => id == param,
                None => false,
            };
            own || is_param_read(hir, receiver, param)
        },
        None => false,
    }
}

/// The one expression that a block without a label evaluates.
pub open spec fn sole_expr(hir: Hir, block: usize) -> Option<usize> {
    match hir.kind(block) {
        Kind::Block { stmts, tail } => match tail {
            Some(tail) => if stmts@.len() == 0 {
                Some(tail)
            } else {
                None
            },
            None => if stmts@.len() == 1 {
                match hir.kind(stmts@[0]) {
                    Kind::ExprStmt { expr } => Some(expr),
                    Kind::Semi { expr } => Some(expr),
                    _ => None,
                }
            } else {
                None
            },
        },
        _ => None,
    }
}

/// The one expression that a closure body evaluates.
pub open spec fn sole_mutation(hir: Hir, body: usize) -> Option<usize> {
    let value = hir.undropped(body);
    match hir.kind(value) {
        Kind::BlockExpr { block } => match sole_expr(hir, block) {
            Some(expr) => Some(hir.undropped(expr)),
            None => None,
        },
        _ => Some(value),
    }
}

/// The single expression a `with_mut` closure evaluates: the body itself, a
/// `{ expr }` tail-only block, or a `{ expr; }` one-statement block. Nothing for
/// a closure with more statements, or with a tail on top of a statement.
pub fn single_mutation(hir: &Hir, body: usize) -> (r: Option<usize>)
    requires
        hir.wf(),
        hir.has(body),
    ensures
        r == sole_mutation(*hir, body),
        r matches Some(m) ==> m <= body,
{
    let value: usize = hir.peel_drop_temps(body);
    proof {
        assert(hir.node_wf(value));
    }
    let block: usize = match &hir.nodes[value].kind {
        Kind::BlockExpr { block } => *block,
        _ => {
            return Some(value);
        },
    };
    proof {
        assert(hir.node_wf(block));
    }
    match &hir.nodes[block].kind {
        Kind::Block { stmts, tail: Some(tail) } => if stmts.len() == 0 {
            Some(hir.peel_drop_temps(*tail))
        } else {
            None
        },
        Kind::Block { stmts, tail: None } => {
            if stmts.len() != 1 {
                return None;
            }
            proof {
                assert(hir.node_wf(stmts@[0]));
            }
            match &hir.nodes[stmts[0]].kind {
                Kind::ExprStmt { expr } | Kind::Semi { expr } => Some(hir.peel_drop_temps(*expr)),
                _ => None,
            }
        },
        _ => None,
    }
}

/// The parent hands the value of `n` on as its own.
pub open spec fn passes_on(kind: Kind, n: usize) -> bool {
    match kind {
        Kind::Arm { .. } => true,
        Kind::Block { stmts: _, tail } => tail == Some(n),
        Kind::BlockExpr { .. } => true,
        Kind::DropTemps { .. } => true,
        Kind::Loop { .. } => true,
        Kind::If { cond, then: _, els: _ } => cond != n,
        Kind::Match { scrutinee, arms: _, source: _ } => scrutinee != n,
        _ => false,
    }
}

/// The parent drops what is below it.
pub open spec fn drops(kind: Kind) -> bool {
    kind is Semi || kind is ExprStmt || kind is Block || kind is Item || kind is TraitItem
        || kind is ImplItem
}

/// The value of `n` is dropped where it stands.
pub open spec fn dropped(hir: Hir, n: usize) -> bool
    decreases hir.nodes@.len() - n,
{
    match hir.up(n) {
        Some(p) => if passes_on(hir.kind(p), n) {
            dropped(hir, p)
        } else {
            drops(hir.kind(p))
        },
        None => false,
    }
}

/// Whether the expression's value is dropped where it stands: a `;` statement,
/// or the tail of a block, `if`, `match` or loop whose own value is dropped.
/// Climbing out to a body root counts, since every mutation shape here produces
/// `()`. `let r = b.with_mut(..)` consumes the `with_mut` return and stays
/// silent.
pub fn value_dropped(hir: &Hir, n: usize) -> (r: bool)
    requires
        hir.wf(),
        hir.has(n),
    ensures
        r == dropped(*hir, n),
    decreases hir.nodes.len() - n,
{
    let p: usize = match hir.parent(n) {
        Some(p) => p,
        None => {
            return false;
        },
    };
    match &hir.nodes[p].kind {
        Kind::Arm { .. } | Kind::BlockExpr { .. } | Kind::DropTemps { .. } | Kind::Loop {
            ..
        } => value_dropped(hir, p),
        Kind::Block { tail, .. } => {
            let own: bool = match tail {
                Some(tail) => *tail == n,
                None => false,
            };
            !own || value_dropped(hir, p)
        },
        Kind::If { cond, .. } => *cond != n && value_dropped(hir, p),
        Kind::Match { scrutinee, .. } => *scrutinee != n && value_dropped(hir, p),
        Kind::Semi { .. } | Kind::ExprStmt { .. } | Kind::Item { .. } | Kind::TraitItem { .. }
        | Kind::ImplItem { .. } => true,
        _ => false,
    }
}

/// The expression reads the current value of `binding`.
pub open spec fn reads_back_at(hir: Hir, n: usize, binding: usize) -> bool {
    ||| {
        &&& hir.node(n).snapshot
        &&& hir.node(n).get_receiver matches Some(receiver)
        &&& manual_list_mutation::same_value(hir, hir.unwrapped(receiver), binding)
    }
    ||| {
        &&& hir.resolves_item(n, Known::BindingGetMut)
        &&& hir.first_operand(n) matches Some(receiver)
        &&& manual_list_mutation::same_value(hir, hir.unwrapped(receiver), binding)
    }
}

/// Something in the expression reads the current value of `binding`.
pub open spec fn reads_back(hir: Hir, n: usize, binding: usize) -> bool {
    exists|i: int|
        0 <= i < hir.exprs(n, true).len() && reads_back_at(
            hir,
            #[trigger] hir.exprs(n, true)[i],
            binding,
        )
}

fn is_read_back(hir: &Hir, n: usize, binding: usize) -> (r: bool)
    requires
        hir.wf(),
        hir.has(n),
        hir.has(binding),
    ensures
        r == reads_back_at(*hir, n, binding),
{
    proof {
        assert(hir.node_wf(n));
    }
    if hir.nodes[n].snapshot {
        if let Some(receiver) = hir.nodes[n].get_receiver {
            if manual_list_mutation::eq_expr_value(hir, hir.strip_wraps(receiver), binding) {
                return true;
            }
        }
    }
    if hir.resolves_of(n, Known::BindingGetMut) {
        if let Some(receiver) = hir.first_arg(n) {
            return manual_list_mutation::eq_expr_value(hir, hir.strip_wraps(receiver), binding);
        }
    }
    false
}

/// Whether the expression reads the binding back, through `get()` or
/// `get_mut()`.
pub fn reads_binding(hir: &Hir, binding: usize, n: usize) -> (r: bool)
    requires
        hir.wf(),
        hir.has(n),
        hir.has(binding),
    ensures
        r == reads_back(*hir, n, binding),
{
    let list: Vec<usize> = hir.exprs_in(n, true);
    let mut i: usize = 0;
    while i < list.len()
        invariant
            i <= list.len(),
            hir.wf(),
            hir.has(n),
            hir.has(binding),
            list@ == hir.exprs(n, true),
            hir::all_below(list@, n + 1),
            forall|k: int| 0 <= k < i ==> !reads_back_at(*hir, #[trigger] list@[k], binding),
        decreases list.len() - i,
    {
        if is_read_back(hir, list[i], binding) {
            assert(reads_back_at(*hir, hir.exprs(n, true)[i as int], binding));
            return true;
        }
        i = i + 1;
    }
    false
}

/// The `Binding` method for an operator and an operand type.
pub open spec fn operator_method(hir: Hir, value: usize, op: BinOp, operand: usize) -> Option<
    Seq<char>,
> {
    match binding::assign_with(hir, value, op, operand) {
        Some(name) => Some(name),
        None => if op == BinOp::Add && binding::appends(hir, value, operand) {
            Some("append"@)
        } else {
            None
        },
    }
}

/// The named `Binding` method for the operator over an operand type, or `append`
/// for `+` when `T: Extend` of it; nothing when neither applies.
pub fn op_method(hir: &Hir, value: usize, op: BinOp, operand: usize) -> (r: Option<&'static str>)
    requires
        value < hir.types.len(),
        operand < hir.types.len(),
    ensures
        binding::name_opt(r) == operator_method(*hir, value, op, operand),
{
    match binding::named_op_assign(hir, value, op, operand) {
        Some(name) => Some(name),
        None => if op == BinOp::Add && binding::extend_accepts(hir, value, operand) {
            Some("append")
        } else {
            None
        },
    }
}

/// The binding and its `T`, where the place is `*b.get_mut()`.
pub open spec fn mutated_through(hir: Hir, lhs: usize) -> Option<(usize, usize)> {
    match hir.kind(anyview::peeled(hir, lhs)) {
        Kind::Unary { op: UnOp::Deref, operand } => if !hir.node(operand).span.expanded()
            && hir.resolves_item(operand, Known::BindingGetMut) {
            match hir.first_operand(operand) {
                Some(receiver) => match binding::value_of(hir, hir.unwrapped(receiver)) {
                    Some(value) => Some((hir.unwrapped(receiver), value)),
                    None => None,
                },
                None => None,
            }
        } else {
            None
        },
        _ => None,
    }
}

/// The mutation place `*b.get_mut()`: `b`, with carriers stripped, and the `T`
/// of its `Binding<T>`.
pub fn get_mut_target(hir: &Hir, lhs: usize) -> (r: Option<(usize, usize)>)
    requires
        hir.wf(),
        hir.has(lhs),
    ensures
        r == mutated_through(*hir, lhs),
        r matches Some((b, value)) ==> hir.has(b) && value < hir.types.len(),
{
    let place: usize = anyview::peel(hir, lhs);
    proof {
        assert(hir.node_wf(place));
    }
    let call: usize = match &hir.nodes[place].kind {
        Kind::Unary { op: UnOp::Deref, operand } => *operand,
        _ => {
            return None;
        },
    };
    if hir.nodes[call].span.from_expansion() || !hir.resolves_of(call, Known::BindingGetMut) {
        return None;
    }
    match hir.first_arg(call) {
        Some(receiver) => {
            let b: usize = hir.strip_wraps(receiver);
            match binding::binding_value_ty(hir, b) {
                Some(value) => Some((b, value)),
                None => None,
            }
        },
        None => None,
    }
}

/// The one element that an iterable holds.
pub open spec fn one_element(hir: Hir, arg: usize) -> Option<usize> {
    let value = anyview::peeled(hir, arg);
    match hir.kind(value) {
        Kind::Array { elements } => if elements@.len() == 1 {
            Some(elements@[0])
        } else {
            None
        },
        Kind::Call { func, args } => if args@.len() == 1 && (
        manual_signal_combinator::constructs(hir, func, Known::OptionSome) || hir.calls_item(
            value,
            Known::IterOnce,
        )) {
            Some(args@[0])
        } else {
            None
        },
        _ => None,
    }
}

/// The single element `v.extend(..)` appends: that of `core::iter::once(x)`,
/// `[x]`, or `Some(x)`; nothing when the argument iterates more (or fewer) than
/// one.
pub fn extend_element(hir: &Hir, arg: usize) -> (r: Option<usize>)
    requires
        hir.wf(),
        hir.has(arg),
    ensures
        r == one_element(*hir, arg),
        r matches Some(x) ==> hir.has(x),
{
    let value: usize = anyview::peel(hir, arg);
    proof {
        assert(hir.node_wf(value));
    }
    match &hir.nodes[value].kind {
        Kind::Array { elements } => if elements.len() == 1 {
            Some(elements[0])
        } else {
            None
        },
        Kind::Call { func, args } => if args.len() == 1 && (manual_signal_combinator::is_ctor(
            hir,
            *func,
            Known::OptionSome,
        ) || hir.is_call_of(value, Known::IterOnce)) {
            Some(args[0])
        } else {
            None
        },
        _ => None,
    }
}

/// The calls that append their argument as it is.
pub open spec fn push_calls() -> Seq<Known> {
    seq![Known::VecPush, Known::StringPush, Known::PushStr]
}

/// The element that a method call on the closure parameter appends.
pub open spec fn appended(hir: Hir, call: usize, param: usize) -> Option<usize> {
    match hir.kind(call) {
        Kind::MethodCall { name: _, receiver, args } => if args@.len() != 1 || !(peeled_local(
            hir,
            receiver,
        ) == Some(param) || reads_param(hir, receiver, param)) {
            None
        } else if hir.resolves(call, push_calls()) {
            Some(args@[0])
        } else if hir.resolves_item(call, Known::ExtendFn) {
            one_element(hir, args@[0])
        } else {
            None
        },
        _ => None,
    }
}

/// The element `b.append` takes, for `v.push(x)`, `v.push_str(x)` or
/// `v.extend(<one-element>)` on the `with_mut` parameter; nothing for any other
/// method on `v`.
pub fn append_element(hir: &Hir, call: usize, param: usize) -> (r: Option<usize>)
    requires
        hir.wf(),
        hir.has(call),
    ensures
        r == appended(*hir, call, param),
        r matches Some(x) ==> hir.has(x),
{
    proof {
        assert(hir.node_wf(call));
    }
    match &hir.nodes[call].kind {
        Kind::MethodCall { receiver, args, .. } => {
            if args.len() != 1 {
                return None;
            }
            let own: bool = match local_of(hir, *receiver) {
                Some(id) => id == param,
                None => false,
            };
            if !own && !is_param_read(hir, *receiver, param) {
                return None;
            }
            if hir.resolves_to(call, &[Known::VecPush, Known::StringPush, Known::PushStr]) {
                return Some(args[0]);
            }
            if hir.resolves_of(call, Known::ExtendFn) {
                extend_element(hir, args[0])
            } else {
                None
            }
        },
        _ => None,
    }
}

/// A `Binding` method, and the argument it is given where it takes one.
#[derive(Debug)]
pub struct Restated {
    pub method: &'static str,
    pub arg: Option<usize>,
}

/// The operand `x` stands for itself: it mentions neither the closure parameter
/// nor the binding's value.
pub open spec fn independent(hir: Hir, x: usize, binding: usize, param: usize) -> bool {
    !manual_list_mutation::local_used(hir, x, param) && !reads_back(hir, x, binding)
}

fn is_independent(hir: &Hir, x: usize, b: usize, param: usize) -> (r: bool)
    requires
        hir.wf(),
        hir.has(x),
        hir.has(b),
    ensures
        r == independent(*hir, x, b, param),
{
    !manual_list_mutation::is_local_used(hir, x, param) && !reads_binding(hir, b, x)
}

/// The method over the operand `x`.
pub open spec fn over_operand(hir: Hir, value: usize, op: BinOp, x: usize) -> Option<
    (Seq<char>, Option<usize>),
> {
    match operator_method(hir, value, op, hir.node(x).adjusted) {
        Some(name) => Some((name, Some(x))),
        None => None,
    }
}

/// The method that an assignment to `*v` of something that reads `v` restates.
pub open spec fn update_method(hir: Hir, binding: usize, value: usize, rhs: usize, param: usize) -> Option<
    (Seq<char>, Option<usize>),
> {
    match hir.kind(rhs) {
        Kind::Unary { op: UnOp::Not, operand } => if hir.ty(value).kind is Bool && reads_param(
            hir,
            operand,
            param,
        ) {
            Some(("toggle"@, None))
        } else {
            None
        },
        Kind::Binary { op, lhs: l, rhs: x } => if reads_param(hir, l, param)
            && binding::assign_name(op) is Some && independent(hir, x, binding, param) {
            over_operand(hir, value, op, x)
        } else {
            None
        },
        _ => None,
    }
}

/// The method that a mutation of `*v` restates, with its argument.
pub open spec fn restated(hir: Hir, binding: usize, value: usize, mutation: usize, param: usize) -> Option<
    (Seq<char>, Option<usize>),
> {
    match hir.kind(mutation) {
        Kind::AssignOp { op, lhs, rhs } => if derefs_param(hir, lhs, param) && independent(
            hir,
            rhs,
            binding,
            param,
        ) {
            over_operand(hir, value, op, rhs)
        } else {
            None
        },
        Kind::Assign { lhs, rhs } => if !derefs_param(hir, lhs, param) {
            None
        } else if manual_list_mutation::local_used(hir, rhs, param) {
            update_method(hir, binding, value, rhs, param)
        } else if !reads_back(hir, rhs, binding) {
            Some(("set"@, Some(rhs)))
        } else {
            None
        },
        Kind::MethodCall { .. } => match appended(hir, mutation, param) {
            Some(x) => if independent(hir, x, binding, param) && binding::appends(
                hir,
                value,
                hir.node(x).adjusted,
            ) {
                Some(("append"@, Some(x)))
            } else {
                None
            },
            None => None,
        },
        _ => None,
    }
}

/// What an optional restated method says.
pub open spec fn restated_opt(r: Option<Restated>) -> Option<(Seq<char>, Option<usize>)> {
    match r {
        Some(r) => Some((r.method@, r.arg)),
        None => None,
    }
}

fn operand_method(hir: &Hir, value: usize, op: BinOp, x: usize) -> (r: Option<Restated>)
    requires
        hir.wf(),
        value < hir.types.len(),
        hir.has(x),
    ensures
        restated_opt(r) == over_operand(*hir, value, op, x),
        r matches Some(found) ==> hir::opt_below(found.arg, hir.nodes@.len() as int),
{
    proof {
        assert(hir.node_wf(x));
    }
    match op_method(hir, value, op, hir.nodes[x].adjusted) {
        Some(method) => Some(Restated { method, arg: Some(x) }),
        None => None,
    }
}

fn check_update(hir: &Hir, b: usize, value: usize, rhs: usize, param: usize) -> (r: Option<
    Restated,
>)
    requires
        hir.wf(),
        hir.has(b),
        value < hir.types.len(),
        hir.has(rhs),
    ensures
        restated_opt(r) == update_method(*hir, b, value, rhs, param),
        r matches Some(found) ==> hir::opt_below(found.arg, hir.nodes@.len() as int),
{
    proof {
        assert(hir.node_wf(rhs));
    }
    match &hir.nodes[rhs].kind {
        Kind::Unary { op: UnOp::Not, operand } => {
            let flag: bool = match &hir.types[value].kind {
                TyKind::Bool => true,
                _ => false,
            };
            if flag && is_param_read(hir, *operand, param) {
                Some(Restated { method: "toggle", arg: None })
            } else {
                None
            }
        },
        Kind::Binary { op, lhs, rhs: x } => if is_param_read(hir, *lhs, param)
            && binding::op_assign_method(*op).is_some() && is_independent(hir, *x, b, param) {
            operand_method(hir, value, *op, *x)
        } else {
            None
        },
        _ => None,
    }
}

/// The `Binding` method the mutation restates and the argument the suggestion
/// carries: `*v op= x`, `*v = *v op x` and `*v = v.clone() op x` for
/// `<op>_assign(x)` or, for `+`, `append(x)`; `*v = !*v` for `toggle()`; `*v = x`
/// for `set(x)`; a one-element push or extend for `append(x)`. Nothing when the
/// `with_mut` body is not a named shape, `x` mentions the parameter or reads the
/// binding back, or the method's bounds do not hold.
pub fn mutation_method(hir: &Hir, b: usize, value: usize, mutation: usize, param: usize) -> (r:
    Option<Restated>)
    requires
        hir.wf(),
        hir.has(b),
        value < hir.types.len(),
        hir.has(mutation),
    ensures
        restated_opt(r) == restated(*hir, b, value, mutation, param),
        r matches Some(found) ==> hir::opt_below(found.arg, hir.nodes@.len() as int),
{
    proof {
        assert(hir.node_wf(mutation));
    }
    match &hir.nodes[mutation].kind {
        Kind::AssignOp { op, lhs, rhs } => if is_deref_of_param(hir, *lhs, param)
            && is_independent(hir, *rhs, b, param) {
            operand_method(hir, value, *op, *rhs)
        } else {
            None
        },
        Kind::Assign { lhs, rhs } => {
            if !is_deref_of_param(hir, *lhs, param) {
                return None;
            }
            if manual_list_mutation::is_local_used(hir, *rhs, param) {
                return check_update(hir, b, value, *rhs, param);
            }
            if reads_binding(hir, b, *rhs) {
                None
            } else {
                Some(Restated { method: "set", arg: Some(*rhs) })
            }
        },
        Kind::MethodCall { .. } => match append_element(hir, mutation, param) {
            Some(x) => {
                proof {
                    assert(hir.node_wf(x));
                }
                if is_independent(hir, x, b, param) && binding::extend_accepts(
                    hir,
                    value,
                    hir.nodes[x].adjusted,
                ) {
                    Some(Restated { method: "append", arg: Some(x) })
                } else {
                    None
                }
            },
            None => None,
        },
        _ => None,
    }
}

/// `b.<method>(<arg>)` as source.
pub open spec fn call_source(hir: Hir, b: usize, method: Seq<char>, arg: Option<usize>) -> Option<
    Seq<char>,
> {
    match (hir.source(b), arg) {
        (Some(source), None) => Some(source + "."@ + method + "()"@),
        (Some(source), Some(arg)) => match binding::coerced(hir, arg) {
            Some(operand) => Some(source + "."@ + method + "("@ + (operand + ")"@)),
            None => None,
        },
        _ => None,
    }
}

/// `b.<method>(<arg>)` as source text; nothing when a snippet cannot be read.
/// The named methods take generic arguments, so a coercion the original call
/// site applied (`&String` reaching `&str`) is written out (`&*s`) for the
/// emitted code to have the type the bound checks proved.
pub fn method_call_sugg(hir: &Hir, b: usize, method: &str, arg: Option<usize>) -> (r: Option<
    String,
>)
    requires
        hir.wf(),
        hir.has(b),
        hir::opt_below(arg, hir.nodes@.len() as int),
    ensures
        text::text_opt(r) == call_source(*hir, b, method@, arg),
{
    let source: String = match hir.snippet_opt(b) {
        Some(source) => source,
        None => {
            return None;
        },
    };
    match arg {
        None => Some(text::cat4(source.as_str(), ".", method, "()")),
        Some(arg) => match binding::coerced_operand(hir, arg) {
            Some(operand) => {
                let rest: String = text::cat(operand.as_str(), ")");
                Some(text::cat5(source.as_str(), ".", method, "(", rest.as_str()))
            },
            None => None,
        },
    }
}

/// What is said of code that restates a `Binding` method.
pub open spec fn report_of(hir: Hir, n: usize, b: usize, method: Seq<char>, arg: Option<usize>) -> DiagnosticView {
    let span = hir.node(n).span;
    DiagnosticView::bare(
        Lint::ManualBindingMutation,
        span,
        "this mutation restates `Binding::"@ + method + "`"@,
    ).with(
        match call_source(hir, b, method, arg) {
            Some(code) => RemarkView::Suggestion {
                label: "use the named method"@,
                span,
                code,
                applicability: Applicability::MachineApplicable,
            },
            None => RemarkView::Help("use `Binding::"@ + method + "`"@),
        },
    )
}

/// The finding, with the machine-applicable rewrite when its source could be
/// read.
pub fn suggest(hir: &Hir, n: usize, b: usize, method: &str, arg: Option<usize>) -> (r: Diagnostic)
    requires
        hir.wf(),
        hir.has(n),
        hir.has(b),
        hir::opt_below(arg, hir.nodes@.len() as int),
    ensures
        r@ == report_of(*hir, n, b, method@, arg),
{
    let span: Span = hir.nodes[n].span;
    let mut found: Diagnostic = Diagnostic::bare(
        Lint::ManualBindingMutation,
        span,
        text::cat3("this mutation restates `Binding::", method, "`").as_str(),
    );
    match method_call_sugg(hir, b, method, arg) {
        Some(code) => {
            found.span_suggestion(
                span,
                "use the named method",
                code,
                Applicability::MachineApplicable,
            );
        },
        None => {
            found.help(text::cat3("use `Binding::", method, "`"));
        },
    }
    found
}

/// The parameter and the body of a closure `|v| ..` that takes `v` as it is.
pub open spec fn plain_param(hir: Hir, func: usize) -> Option<(usize, usize)> {
    match hir.kind(anyview::peeled(hir, func)) {
        Kind::Closure { params, body, by_move: _ } => if params@.len() == 1 {
            match hir.kind(params@[0]) {
                Kind::Param { pat } => match hir.kind(pat) {
                    Kind::Binding { name: _, id, sub: None } => if hir.node(pat).by_ref {
                        None
                    } else {
                        Some((id, body))
                    },
                    _ => None,
                },
                _ => None,
            }
        } else {
            None
        },
        _ => None,
    }
}

fn closure_param(hir: &Hir, func: usize) -> (r: Option<(usize, usize)>)
    requires
        hir.wf(),
        hir.has(func),
    ensures
        r == plain_param(*hir, func),
        r matches Some((_, body)) ==> hir.has(body),
{
    let closure: usize = anyview::peel(hir, func);
    proof {
        assert(hir.node_wf(closure));
    }
    match &hir.nodes[closure].kind {
        Kind::Closure { params, body, .. } => {
            if params.len() != 1 {
                return None;
            }
            proof {
                assert(hir.node_wf(params@[0]));
            }
            match &hir.nodes[params[0]].kind {
                Kind::Param { pat } => match &hir.nodes[*pat].kind {
                    Kind::Binding { id, sub: None, .. } => if hir.nodes[*pat].by_ref {
                        None
                    } else {
                        Some((*id, *body))
                    },
                    _ => None,
                },
                _ => None,
            }
        },
        _ => None,
    }
}

/// What is said of a `with_mut` call.
pub open spec fn with_mut_finding(hir: Hir, n: usize) -> Option<DiagnosticView> {
    let args = hir.operands(n);
    if args.len() != 2 || hir.node(args[1]).span.expanded() || !dropped(hir, n) {
        None
    } else {
        let b = hir.unwrapped(args[0]);
        match (binding::value_of(hir, args[0]), plain_param(hir, args[1])) {
            (Some(value), Some((param, body))) => match sole_mutation(hir, body) {
                Some(mutation) => match restated(hir, b, value, mutation, param) {
                    Some((method, arg)) => Some(report_of(hir, n, b, method, arg)),
                    None => None,
                },
                None => None,
            },
            _ => None,
        }
    }
}

/// `b.with_mut(|v| ..)`: the closure's one mutation restates a named `Binding`
/// method. `|ref v|` binds `v: &&mut T`, where `*v` is `&mut T`, not the value;
/// a by-value (or `mut`) binding is the `&mut T` the shapes read.
pub fn check_with_mut(hir: &Hir, n: usize) -> (r: Option<Diagnostic>)
    requires
        hir.wf(),
        hir.has(n),
    ensures
        diagnostics::found(r) == with_mut_finding(*hir, n),
{
    let args: Vec<usize> = hir.call_args(n);
    if args.len() != 2 {
        return None;
    }
    let receiver: usize = args[0];
    let func: usize = args[1];
    if hir.nodes[func].span.from_expansion() || !value_dropped(hir, n) {
        return None;
    }
    let value: usize = match binding::binding_value_ty(hir, receiver) {
        Some(value) => value,
        None => {
            return None;
        },
    };
    let (param, body) = match closure_param(hir, func) {
        Some(found) => found,
        None => {
            return None;
        },
    };
    let mutation: usize = match single_mutation(hir, body) {
        Some(mutation) => mutation,
        None => {
            return None;
        },
    };
    let b: usize = hir.strip_wraps(receiver);
    match mutation_method(hir, b, value, mutation, param) {
        Some(found) => Some(suggest(hir, n, b, found.method, found.arg)),
        None => None,
    }
}

/// The conversions that `set_from` makes itself.
pub open spec fn set_conversions() -> Seq<Known> {
    seq![Known::Into, Known::From, Known::StrFromStatic, Known::ToString, Known::ToOwned]
}

/// What a conversion converts.
pub open spec fn converted(hir: Hir, arg: usize) -> Option<usize> {
    if hir.node(arg).span.expanded() || !hir.resolves(arg, set_conversions()) {
        None
    } else {
        match hir.kind(arg) {
            Kind::MethodCall { name: _, receiver, args } => if args@.len() == 0 {
                Some(receiver)
            } else {
                None
            },
            Kind::Call { func: _, args } => if args@.len() == 1 {
                Some(args@[0])
            } else {
                None
            },
            _ => None,
        }
    }
}

fn converted_operand(hir: &Hir, arg: usize) -> (r: Option<usize>)
    requires
        hir.wf(),
        hir.has(arg),
    ensures
        r == converted(*hir, arg),
        r matches Some(x) ==> hir.has(x),
{
    proof {
        assert(hir.node_wf(arg));
    }
    let known = [Known::Into, Known::From, Known::StrFromStatic, Known::ToString, Known::ToOwned];
    proof {
        assert(known@ =~= set_conversions());
    }
    if hir.nodes[arg].span.from_expansion() || !hir.resolves_to(arg, &known) {
        return None;
    }
    match &hir.nodes[arg].kind {
        Kind::MethodCall { receiver, args, .. } => if args.len() == 0 {
            Some(*receiver)
        } else {
            None
        },
        Kind::Call { args, .. } => if args.len() == 1 {
            Some(args[0])
        } else {
            None
        },
        _ => None,
    }
}

/// The method that takes `x` without the conversion.
pub open spec fn set_method(hir: Hir, x: usize, value: usize) -> Option<Seq<char>> {
    let t = hir.node(x).adjusted;
    if hir.ty(t).has_infer || hir.ty(value).has_infer {
        None
    } else if t == value {
        Some("set"@)
    } else if hir.ty(t).implements(Trait::Into, seq![value]) {
        Some("set_from"@)
    } else {
        None
    }
}

/// `x` can be handed over in place of its conversion: `to_owned` and
/// `to_string` borrow `x`, so there it must be a reference.
pub open spec fn may_hand_over(hir: Hir, arg: usize, x: usize) -> bool {
    (hir.resolves_item(arg, Known::ToString) || hir.resolves_item(arg, Known::ToOwned))
        ==> hir.expr_ty(x).kind is Ref
}

/// What is said of a `set` call.
pub open spec fn set_finding(hir: Hir, n: usize) -> Option<DiagnosticView> {
    let args = hir.operands(n);
    if args.len() != 2 {
        None
    } else {
        let b = hir.unwrapped(args[0]);
        let arg = anyview::peeled(hir, args[1]);
        match (binding::value_of(hir, args[0]), converted(hir, arg)) {
            (Some(value), Some(x)) => if may_hand_over(hir, arg, x) && !reads_back(hir, x, b) {
                match set_method(hir, x, value) {
                    Some(method) => Some(report_of(hir, n, b, method, Some(x))),
                    None => None,
                }
            } else {
                None
            },
            _ => None,
        }
    }
}

/// `b.set(<conversion>(x))` for `b.set_from(x)`, or `b.set(x)` when `x` is
/// already `T` and the conversion was redundant. `to_owned` and `to_string`
/// borrow `x`; the rewrite passes `x` itself, which for an owned `x` is a move
/// the original never performed, so only a reference receiver is rewritten.
pub fn check_set_conversion(hir: &Hir, n: usize) -> (r: Option<Diagnostic>)
    requires
        hir.wf(),
        hir.has(n),
    ensures
        diagnostics::found(r) == set_finding(*hir, n),
{
    let args: Vec<usize> = hir.call_args(n);
    if args.len() != 2 {
        return None;
    }
    let receiver: usize = args[0];
    let value: usize = match binding::binding_value_ty(hir, receiver) {
        Some(value) => value,
        None => {
            return None;
        },
    };
    let arg: usize = anyview::peel(hir, args[1]);
    let x: usize = match converted_operand(hir, arg) {
        Some(x) => x,
        None => {
            return None;
        },
    };
    proof {
        assert(hir.node_wf(x));
    }
    let borrows: bool = hir.resolves_of(arg, Known::ToString) || hir.resolves_of(
        arg,
        Known::ToOwned,
    );
    let reference: bool = match &hir.type_of(x).kind {
        TyKind::Ref { .. } => true,
        _ => false,
    };
    if borrows && !reference {
        return None;
    }
    let b: usize = hir.strip_wraps(receiver);
    if reads_binding(hir, b, x) {
        return None;
    }
    let t: usize = hir.nodes[x].adjusted;
    if hir.types[t].has_infer || hir.types[value].has_infer {
        return None;
    }
    let method: &str = if t == value {
        "set"
    } else if hir.types[t].implements_one(Trait::Into, value) {
        "set_from"
    } else {
        return None;
    };
    Some(suggest(hir, n, b, method, Some(x)))
}

/// What is said of an assignment through `*b.get_mut()`.
pub open spec fn guard_finding(hir: Hir, n: usize, op: Option<BinOp>, lhs: usize, rhs: usize) -> Option<
    DiagnosticView,
> {
    match mutated_through(hir, lhs) {
        Some((b, value)) => if reads_back(hir, rhs, b) || !dropped(hir, n) {
            None
        } else {
            match op {
                None => Some(report_of(hir, n, b, "set"@, Some(rhs))),
                Some(op) => match operator_method(hir, value, op, hir.node(rhs).adjusted) {
                    Some(method) => Some(report_of(hir, n, b, method, Some(rhs))),
                    None => None,
                },
            }
        },
        None => None,
    }
}

/// `*b.get_mut() = x` for `b.set(x)`, and `*b.get_mut() op= x` for
/// `b.<op>_assign(x)` or `b.append(x)`. The guard's `Drop` publishes at the end
/// of the enclosing statement, so only a dropped-value position keeps the
/// timing.
fn check_guard(hir: &Hir, n: usize, op: Option<BinOp>, lhs: usize, rhs: usize) -> (r: Option<
    Diagnostic,
>)
    requires
        hir.wf(),
        hir.has(n),
        hir.has(lhs),
        hir.has(rhs),
    ensures
        diagnostics::found(r) == guard_finding(*hir, n, op, lhs, rhs),
{
    let (b, value) = match get_mut_target(hir, lhs) {
        Some(found) => found,
        None => {
            return None;
        },
    };
    if reads_binding(hir, b, rhs) || !value_dropped(hir, n) {
        return None;
    }
    proof {
        assert(hir.node_wf(rhs));
    }
    match op {
        None => Some(suggest(hir, n, b, "set", Some(rhs))),
        Some(op) => match op_method(hir, value, op, hir.nodes[rhs].adjusted) {
            Some(method) => Some(suggest(hir, n, b, method, Some(rhs))),
            None => None,
        },
    }
}

/// What is said of an expression.
pub open spec fn finding_at(hir: Hir, n: usize) -> Option<DiagnosticView> {
    if hir.node(n).span.expanded() {
        None
    } else {
        match hir.kind(n) {
            Kind::Assign { lhs, rhs } => guard_finding(hir, n, None, lhs, rhs),
            Kind::AssignOp { op, lhs, rhs } => guard_finding(hir, n, Some(op), lhs, rhs),
            _ => if hir.resolves_item(n, Known::BindingWithMut) {
                with_mut_finding(hir, n)
            } else if hir.resolves_item(n, Known::BindingSet) {
                set_finding(hir, n)
            } else {
                None
            },
        }
    }
}

/// Flags a `Binding` mutation or conversion written by hand where `Binding` has
/// the named method. An argument that reads the same binding back through
/// `get()` or `get_mut()` stays silent.
pub fn check_expr(hir: &Hir, n: usize) -> (r: Option<Diagnostic>)
    requires
        hir.wf(),
        hir.has(n),
    ensures
        diagnostics::found(r) == finding_at(*hir, n),
{
    if hir.nodes[n].span.from_expansion() {
        return None;
    }
    proof {
        assert(hir.node_wf(n));
    }
    match &hir.nodes[n].kind {
        Kind::Assign { lhs, rhs } => {
            return check_guard(hir, n, None, *lhs, *rhs);
        },
        Kind::AssignOp { op, lhs, rhs } => {
            return check_guard(hir, n, Some(*op), *lhs, *rhs);
        },
        _ => {},
    }
    if hir.resolves_of(n, Known::BindingWithMut) {
        check_with_mut(hir, n)
    } else if hir.resolves_of(n, Known::BindingSet) {
        check_set_conversion(hir, n)
    } else {
        None
    }
}

/// A closure body is one mutation where it is an expression alone, a block with
/// nothing but that expression, or a block with nothing but it as a statement.
pub proof fn single_mutations_stand_alone(hir: Hir, body: usize, block: usize, expr: usize)
    requires
        hir.undropped(body) == body,
    ensures
        !(hir.kind(body) is BlockExpr) ==> sole_mutation(hir, body) == Some(body),
        hir.kind(body) == (Kind::BlockExpr { block }) ==> match hir.kind(block) {
            Kind::Block { stmts, tail } => {
                &&& stmts@.len() > 1 || (stmts@.len() == 1 && tail is Some) ==> sole_mutation(
                    hir,
                    body,
                ) is None
                &&& stmts@.len() == 0 && tail == Some(expr) ==> sole_mutation(hir, body) == Some(
                    hir.undropped(expr),
                )
                &&& stmts@.len() == 1 && tail is None && (hir.kind(stmts@[0]) == (Kind::Semi {
                    expr,
                }) || hir.kind(stmts@[0]) == (Kind::ExprStmt { expr })) ==> sole_mutation(hir, body)
                    == Some(hir.undropped(expr))
            },
            _ => true,
        },
{
}

/// A value is dropped where a semicolon drops it or where it is the tail of what
/// is dropped; one that is bound, passed on to a call or tested is not.
pub proof fn dropped_values_are_found(hir: Hir, n: usize, p: usize)
    requires
        hir.up(n) == Some(p),
    ensures
        hir.kind(p) is Semi ==> dropped(hir, n),
        hir.kind(p) is LetStmt || hir.kind(p) is Call || hir.kind(p) is MethodCall || hir.kind(
            p,
        ) is Ret || hir.kind(p) is Binary ==> !dropped(hir, n),
        hir.kind(p) matches Kind::If { cond, then: _, els: _ } ==> dropped(hir, n) == (cond != n
            && dropped(hir, p)),
        hir.kind(p) matches Kind::Block { stmts: _, tail } ==> (tail == Some(n) ==> dropped(hir, n)
            == dropped(hir, p)),
        hir.kind(p) is DropTemps || hir.kind(p) is BlockExpr ==> dropped(hir, n) == dropped(hir, p),
{
}

} // verus!
