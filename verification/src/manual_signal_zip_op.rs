//! `manual_signal_zip_op`: `a.zip(&b).map(|(x, y)| x op y)` restates a named
//! signal operation.

use crate::diagnostics;
use crate::diagnostics::{Applicability, Diagnostic, DiagnosticView};
use crate::hir::{BinOp, Hir, Kind, MatchSource, Trait, TyKind};
use crate::known::Known;
use crate::lint::Lint;
use crate::manual_signal_combinator;
use crate::signal_map;
use crate::text;
use vstd::prelude::*;

verus! {

/// The operation a `x op y` body spells: `and` and `or` borrow both signals;
/// the arithmetic and bitwise operators consume them.
#[derive(Clone, Copy, Debug, PartialEq, Eq, Structural)]
pub enum Operation {
    /// `x && y` is `and`.
    And,
    /// `x || y` is `or`.
    Or,
    /// `x op y` is `a op b`.
    Op(BinOp),
}

/// How the `map` closure's single parameter reads the zipped pair.
#[derive(Clone, Copy, Debug, PartialEq, Eq, Structural)]
pub enum PairRead {
    /// `(x, y)`: a tuple pattern binding each component.
    Destructured(usize, usize),
    /// `t`: a binding read through `.0` and `.1` projections.
    Indexed(usize),
}

/// The expression is exactly the first (or the second) component of the pair.
pub open spec fn component(hir: Hir, read: PairRead, n: usize, first: bool) -> bool {
    match read {
        PairRead::Destructured(x, y) => hir.local(n) == Some(
            if first {
                x
            } else {
                y
            },
        ),
        PairRead::Indexed(t) => match hir.kind(n) {
            Kind::Field { base, name } => hir.local(base) == Some(t) && name.name@ == (if first {
                "0"@
            } else {
                "1"@
            }),
            _ => false,
        },
    }
}

/// `expr` is exactly the first (or the second) component read of the pair: `x`
/// or `y` for a destructured pattern, `t.0` or `t.1` for a binding.
pub fn reads_component(hir: &Hir, read: PairRead, n: usize, first: bool) -> (r: bool)
    requires
        hir.wf(),
        hir.has(n),
    ensures
        r == component(*hir, read, n, first),
{
    match read {
        PairRead::Destructured(x, y) => hir.res_local(n) == Some(
            if first {
                x
            } else {
                y
            },
        ),
        PairRead::Indexed(t) => {
            proof {
                assert(hir.node_wf(n));
            }
            match &hir.nodes[n].kind {
                Kind::Field { base, name } => hir.res_local(*base) == Some(t) && text::str_eq(
                    name.name.as_str(),
                    if first {
                        "0"
                    } else {
                        "1"
                    },
                ),
                _ => false,
            }
        },
    }
}

/// The operator is one that signals overload.
pub open spec fn overloadable(op: BinOp) -> bool {
    match op {
        BinOp::Add | BinOp::Sub | BinOp::Mul | BinOp::Div | BinOp::Rem | BinOp::BitAnd
        | BinOp::BitOr | BinOp::BitXor | BinOp::Shl | BinOp::Shr => true,
        _ => false,
    }
}

/// The `core::ops` trait behind `op`, for the operators that signals overload.
pub fn op_lang_item(op: BinOp) -> (r: Option<Trait>)
    ensures
        r == (if overloadable(op) {
            Some(Trait::Op(op))
        } else {
            None
        }),
{
    match op {
        BinOp::Add | BinOp::Sub | BinOp::Mul | BinOp::Div | BinOp::Rem | BinOp::BitAnd
        | BinOp::BitOr | BinOp::BitXor | BinOp::Shl | BinOp::Shr => Some(Trait::Op(op)),
        _ => None,
    }
}

/// The expression sits where a bare `a op b` would rebind.
pub open spec fn parenthesized(hir: Hir, n: usize) -> bool
    decreases hir.nodes@.len() - n,
{
    match hir.up(n) {
        Some(p) => match hir.kind(p) {
            Kind::DropTemps { .. } => parenthesized(hir, p),
            Kind::MethodCall { name: _, receiver, args: _ } => receiver == n,
            Kind::Call { func, args: _ } => func == n,
            Kind::Index { base, index: _ } => base == n,
            Kind::Field { .. } | Kind::Unary { .. } | Kind::AddrOf { .. } | Kind::Cast { .. }
            | Kind::Binary { .. } | Kind::Yield { .. } => true,
            Kind::Match { scrutinee: _, arms: _, source } => source is Await,
            _ => false,
        },
        None => false,
    }
}

/// `expr` sits where a bare `a op b` would rebind (a method receiver, a field
/// or index base, a call callee, a unary, `&`, `as` or `.await` operand, or
/// either side of a binary operator), so the rewrite needs `(...)`.
pub fn needs_parens(hir: &Hir, n: usize) -> (r: bool)
    requires
        hir.wf(),
        hir.has(n),
    ensures
        r == parenthesized(*hir, n),
    decreases hir.nodes.len() - n,
{
    match hir.parent(n) {
        Some(p) => match &hir.nodes[p].kind {
            Kind::DropTemps { .. } => needs_parens(hir, p),
            Kind::MethodCall { receiver, .. } => *receiver == n,
            Kind::Call { func, .. } => *func == n,
            Kind::Index { base, .. } => *base == n,
            Kind::Field { .. } | Kind::Unary { .. } | Kind::AddrOf { .. } | Kind::Cast { .. }
            | Kind::Binary { .. } | Kind::Yield { .. } => true,
            Kind::Match { source, .. } => *source == MatchSource::Await,
            _ => false,
        },
        None => false,
    }
}

/// How many references stand around a type.
pub open spec fn ref_count(hir: Hir, t: usize) -> nat
    decreases t,
{
    match hir.ty(t).kind {
        TyKind::Ref { inner, .. } => if inner < t {
            1 + ref_count(hir, inner)
        } else {
            0
        },
        _ => 0,
    }
}

/// How many references stand around a type, with any more than one taken for
/// two.
pub fn ref_depth(hir: &Hir, t: usize) -> (r: u8)
    requires
        hir.wf(),
        t < hir.types.len(),
    ensures
        r <= 2,
        r < 2 ==> r == ref_count(*hir, t),
        r == 2 ==> ref_count(*hir, t) >= 2,
{
    proof {
        reveal_with_fuel(ref_count, 3);
        assert(hir.types@[t as int].below(t as int));
    }
    match &hir.types[t].kind {
        TyKind::Ref { inner, .. } => {
            proof {
                assert(hir.types@[*inner as int].below(*inner as int));
            }
            match &hir.types[*inner].kind {
                TyKind::Ref { .. } => 2,
                _ => 1,
            }
        },
        _ => 0,
    }
}

/// How the parameter pattern reads the pair.
pub open spec fn pair_read(hir: Hir, pat: usize) -> Option<PairRead> {
    match hir.kind(pat) {
        Kind::TuplePat { parts } => if parts@.len() == 2 {
            match (hir.kind(parts@[0]), hir.kind(parts@[1])) {
                (
                    Kind::Binding { name: _, id: x, sub: a },
                    Kind::Binding { name: _, id: y, sub: b },
                ) => if a is None && b is None {
                    Some(PairRead::Destructured(x, y))
                } else {
                    None
                },
                _ => None,
            }
        } else {
            None
        },
        Kind::Binding { name: _, id, sub } => if sub is None {
            Some(PairRead::Indexed(id))
        } else {
            None
        },
        _ => None,
    }
}

fn read_pair(hir: &Hir, pat: usize) -> (r: Option<PairRead>)
    requires
        hir.wf(),
        hir.has(pat),
    ensures
        r == pair_read(*hir, pat),
{
    proof {
        assert(hir.node_wf(pat));
    }
    match &hir.nodes[pat].kind {
        Kind::TuplePat { parts } => if parts.len() == 2 {
            match (&hir.nodes[parts[0]].kind, &hir.nodes[parts[1]].kind) {
                (Kind::Binding { id: x, sub: a, .. }, Kind::Binding { id: y, sub: b, .. }) => {
                    if a.is_none() && b.is_none() {
                        Some(PairRead::Destructured(*x, *y))
                    } else {
                        None
                    }
                },
                _ => None,
            }
        } else {
            None
        },
        Kind::Binding { id, sub, .. } => if sub.is_none() {
            Some(PairRead::Indexed(*id))
        } else {
            None
        },
        _ => None,
    }
}

/// The operation that combining the components of `a` and `b` by `op` spells.
///
/// `a op b` needs the signal type to carry the overload: the closure proves it
/// of the outputs only.
pub open spec fn operation_of(
    hir: Hir,
    op: BinOp,
    lhs: usize,
    rhs: usize,
    a: usize,
    b: usize,
) -> Option<Operation> {
    let booleans = hir.expr_ty(lhs).kind is Bool && hir.expr_ty(rhs).kind is Bool;
    let a_ty = hir.referent(hir.node(a).ty);
    let b_ty = hir.referent(hir.node(b).ty);
    if op is And && booleans {
        Some(Operation::And)
    } else if op is Or && booleans {
        Some(Operation::Or)
    } else if overloadable(op) && !hir.ty(a_ty).has_infer && !hir.ty(b_ty).has_infer && hir.ty(
        a_ty,
    ).implements(Trait::Op(op), seq![b_ty]) {
        Some(Operation::Op(op))
    } else {
        None
    }
}

fn find_operation(hir: &Hir, op: BinOp, lhs: usize, rhs: usize, a: usize, b: usize) -> (r: Option<
    Operation,
>)
    requires
        hir.wf(),
        hir.has(lhs),
        hir.has(rhs),
        hir.has(a),
        hir.has(b),
    ensures
        r == operation_of(*hir, op, lhs, rhs, a, b),
{
    proof {
        assert(hir.node_wf(a));
        assert(hir.node_wf(b));
    }
    let booleans: bool = match (&hir.type_of(lhs).kind, &hir.type_of(rhs).kind) {
        (TyKind::Bool, TyKind::Bool) => true,
        _ => false,
    };
    if op == BinOp::And && booleans {
        return Some(Operation::And);
    }
    if op == BinOp::Or && booleans {
        return Some(Operation::Or);
    }
    let a_ty: usize = hir.peel_refs(hir.nodes[a].ty);
    let b_ty: usize = hir.peel_refs(hir.nodes[b].ty);
    match op_lang_item(op) {
        Some(op_trait) => if hir.types[a_ty].has_infer || hir.types[b_ty].has_infer
            || !hir.types[a_ty].implements_one(op_trait, b_ty) {
            None
        } else {
            Some(Operation::Op(op))
        },
        None => None,
    }
}

/// How an operator is written.
pub open spec fn op_text(op: BinOp) -> Seq<char> {
    match op {
        BinOp::Add => "+"@,
        BinOp::Sub => "-"@,
        BinOp::Mul => "*"@,
        BinOp::Div => "/"@,
        BinOp::Rem => "%"@,
        BinOp::BitAnd => "&"@,
        BinOp::BitOr => "|"@,
        BinOp::BitXor => "^"@,
        BinOp::Shl => "<<"@,
        BinOp::Shr => ">>"@,
        BinOp::And => "&&"@,
        BinOp::Or => "||"@,
        BinOp::Eq => "=="@,
        BinOp::Ne => "!="@,
        BinOp::Lt => "<"@,
        BinOp::Le => "<="@,
        BinOp::Gt => ">"@,
        BinOp::Ge => ">="@,
    }
}

/// How an operator is written.
pub fn op_str(op: BinOp) -> (r: &'static str)
    ensures
        r@ == op_text(op),
{
    match op {
        BinOp::Add => "+",
        BinOp::Sub => "-",
        BinOp::Mul => "*",
        BinOp::Div => "/",
        BinOp::Rem => "%",
        BinOp::BitAnd => "&",
        BinOp::BitOr => "|",
        BinOp::BitXor => "^",
        BinOp::Shl => "<<",
        BinOp::Shr => ">>",
        BinOp::And => "&&",
        BinOp::Or => "||",
        BinOp::Eq => "==",
        BinOp::Ne => "!=",
        BinOp::Lt => "<",
        BinOp::Le => "<=",
        BinOp::Gt => ">",
        BinOp::Ge => ">=",
    }
}

/// The second signal as `and` and `or` take it: borrowed, unless it is a
/// reference already.
pub open spec fn borrowed(hir: Hir, b: usize) -> Seq<char> {
    let depth = ref_count(hir, hir.node(b).ty);
    if depth == 0 {
        "&"@ + hir.operand_or_dots(b)
    } else if depth == 1 {
        hir.plain_or_dots(b)
    } else {
        "*"@ + hir.operand_or_dots(b)
    }
}

/// The replacement for the whole `zip`/`map` pair `n`.
pub open spec fn spelling(hir: Hir, n: usize, operation: Operation, a: usize, b: usize) -> Seq<
    char,
> {
    match operation {
        Operation::And => hir.operand_or_dots(a) + "."@ + "and"@ + "("@ + borrowed(hir, b) + ")"@,
        Operation::Or => hir.operand_or_dots(a) + "."@ + "or"@ + "("@ + borrowed(hir, b) + ")"@,
        Operation::Op(op) => {
            let bare = hir.owned_or_dots(a) + " "@ + op_text(op) + " "@ + hir.owned_or_dots(b);
            if parenthesized(hir, n) {
                "("@ + bare + ")"@
            } else {
                bare
            }
        },
    }
}

/// The replacement for the whole `zip`/`map` pair: `and` and `or` take `a`
/// verbatim and `b` re-borrowed, unless `zip` already took it as a reference;
/// an operator takes both by value, in parentheses where the surrounding
/// expression would rebind it.
pub fn spell(hir: &Hir, n: usize, operation: Operation, a: usize, b: usize) -> (r: String)
    requires
        hir.wf(),
        hir.has(n),
        hir.has(a),
        hir.has(b),
    ensures
        r@ == spelling(*hir, n, operation, a, b),
{
    let name: &str = match operation {
        Operation::And => "and",
        Operation::Or => "or",
        Operation::Op(op) => {
            let left: String = hir.owned_spelling(a);
            let right: String = hir.owned_spelling(b);
            let bare: String = text::cat5(left.as_str(), " ", op_str(op), " ", right.as_str());
            return if needs_parens(hir, n) {
                text::cat3("(", bare.as_str(), ")")
            } else {
                bare
            };
        },
    };
    proof {
        assert(hir.node_wf(b));
    }
    let depth: u8 = ref_depth(hir, hir.nodes[b].ty);
    let other: String = if depth == 0 {
        text::cat("&", hir.operand_text(b).as_str())
    } else if depth == 1 {
        hir.plain_text(b)
    } else {
        text::cat("*", hir.operand_text(b).as_str())
    };
    let mut out: String = text::cat5(hir.operand_text(a).as_str(), ".", name, "(", other.as_str());
    out.append(")");
    out
}

/// The signals that `n` maps after zipping them, and the map's function.
pub open spec fn zipped(hir: Hir, n: usize) -> Option<(usize, usize, usize)> {
    match manual_signal_combinator::one_arg_method(hir, n) {
        Some((receiver, func)) => match manual_signal_combinator::one_arg_method(hir, receiver) {
            Some((a, other)) => if hir.resolves_item(n, Known::SignalMap) && hir.resolves_item(
                receiver,
                Known::SignalZip,
            ) {
                Some((a, hir.unwrapped(other), func))
            } else {
                None
            },
            None => None,
        },
        None => None,
    }
}

/// `a.zip(&b).map(f)`: the `zip` argument peels (`&`, `.clone()`, parens) to the
/// second signal.
fn zip_parts(hir: &Hir, n: usize) -> (r: Option<(usize, usize, usize)>)
    requires
        hir.wf(),
        hir.has(n),
    ensures
        r == zipped(*hir, n),
        r matches Some(p) ==> p.0 < n && p.1 < n && p.2 < n,
{
    match manual_signal_combinator::one_arg_method_parts(hir, n) {
        Some((receiver, func)) => match manual_signal_combinator::one_arg_method_parts(
            hir,
            receiver,
        ) {
            Some((a, other)) => if hir.resolves_of(n, Known::SignalMap) && hir.resolves_of(
                receiver,
                Known::SignalZip,
            ) {
                Some((a, hir.strip_wraps(other), func))
            } else {
                None
            },
            None => None,
        },
        None => None,
    }
}

/// The operation that the closure spells: its body combines the two components
/// in order.
pub open spec fn closure_operation(hir: Hir, a: usize, b: usize, func: usize) -> Option<
    Operation,
> {
    match signal_map::one_param_closure(hir, func) {
        Some((pat, body)) => match (pair_read(hir, pat), hir.kind(hir.evaluated(body))) {
            (Some(read), Kind::Binary { op, lhs, rhs }) => if component(hir, read, lhs, true)
                && component(hir, read, rhs, false) {
                operation_of(hir, op, lhs, rhs, a, b)
            } else {
                None
            },
            _ => None,
        },
        None => None,
    }
}

fn find_closure_operation(hir: &Hir, a: usize, b: usize, func: usize) -> (r: Option<Operation>)
    requires
        hir.wf(),
        hir.has(a),
        hir.has(b),
        hir.has(func),
    ensures
        r == closure_operation(*hir, a, b, func),
{
    let (pat, body) = match signal_map::closure_parts(hir, func) {
        Some(parts) => parts,
        None => {
            return None;
        },
    };
    let read: PairRead = match read_pair(hir, pat) {
        Some(read) => read,
        None => {
            return None;
        },
    };
    let value: usize = hir.body_expr(body);
    proof {
        assert(hir.node_wf(value));
    }
    match &hir.nodes[value].kind {
        Kind::Binary { op, lhs, rhs } => if reads_component(hir, read, *lhs, true)
            && reads_component(hir, read, *rhs, false) {
            find_operation(hir, *op, *lhs, *rhs, a, b)
        } else {
            None
        },
        _ => None,
    }
}

/// What the lint finds at the expression `n`.
pub open spec fn finding_at(hir: Hir, n: usize) -> Option<DiagnosticView> {
    match zipped(hir, n) {
        Some((a, b, func)) => match closure_operation(hir, a, b, func) {
            Some(operation) => if hir.node(n).span.expanded() {
                None
            } else {
                Some(
                    DiagnosticView::with_sugg(
                        Lint::ManualSignalZipOp,
                        hir.node(n).span,
                        "this `zip`/`map` pair is a named signal operation"@,
                        "use the signal operation"@,
                        spelling(hir, n, operation, a, b),
                        hir.after_sugg(
                            b,
                            hir.after_sugg(a, Applicability::MachineApplicable),
                        ),
                    ),
                )
            },
            None => None,
        },
        None => None,
    }
}

/// Checks one expression. Operands in swapped order (`y && x`), a component
/// read more than once (`x + x`), and any other body stay silent.
pub fn check_expr(hir: &Hir, n: usize) -> (r: Option<Diagnostic>)
    requires
        hir.wf(),
        hir.has(n),
    ensures
        diagnostics::found(r) == finding_at(*hir, n),
{
    if hir.nodes[n].span.from_expansion() {
        return None;
    }
    let (a, b, func) = match zip_parts(hir, n) {
        Some(parts) => parts,
        None => {
            return None;
        },
    };
    let operation: Operation = match find_closure_operation(hir, a, b, func) {
        Some(operation) => operation,
        None => {
            return None;
        },
    };
    let applicability: Applicability = hir.sugg_applicability(
        b,
        hir.sugg_applicability(a, Applicability::MachineApplicable),
    );
    Some(
        Diagnostic::with_sugg(
            Lint::ManualSignalZipOp,
            hir.nodes[n].span,
            "this `zip`/`map` pair is a named signal operation",
            "use the signal operation",
            spell(hir, n, operation, a, b),
            applicability,
        ),
    )
}

} // verus!
