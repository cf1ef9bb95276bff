//! What operators give, what the in-place methods of a binding leave in it, and
//! the laws that the code proposed gives and leaves what the code it replaces did.

use crate::anyview;
use crate::binding;
use crate::diagnostics::{DiagnosticView, RemarkView};
use crate::hir::{BinOp, Hir, Kind, Trait, UnOp};
use crate::known::Known;
use crate::manual_binding_mutation;
use crate::manual_signal_zip_op;
use crate::signal_map;
use vstd::prelude::*;

verus! {

/// The quotient of two numbers, cut off towards zero.
pub open spec fn quotient(a: int, b: int) -> int {
    if a >= 0 {
        a / b
    } else {
        -((-a) / b)
    }
}

/// What `a op b` is worth for an arithmetic operator on numbers.
pub open spec fn operated(op: BinOp, a: int, b: int) -> Option<int> {
    match op {
        BinOp::Add => Some(a + b),
        BinOp::Sub => Some(a - b),
        BinOp::Mul => Some(a * b),
        BinOp::Div => Some(quotient(a, b)),
        BinOp::Rem => Some(a - quotient(a, b) * b),
        BinOp::BitAnd => Some((a as i128 & b as i128) as int),
        BinOp::BitOr => Some((a as i128 | b as i128) as int),
        BinOp::BitXor => Some((a as i128 ^ b as i128) as int),
        BinOp::Shl => Some((((a as i128) << (b as i128)) as int)),
        BinOp::Shr => Some((((a as i128) >> (b as i128)) as int)),
        _ => None,
    }
}

/// The methods of a binding that apply an operator to what it holds.
pub ghost enum InPlace {
    AddAssign,
    SubAssign,
    MulAssign,
    DivAssign,
    RemAssign,
    BitandAssign,
    BitorAssign,
    BitxorAssign,
    ShlAssign,
    ShrAssign,
}

impl InPlace {
    /// How a method is called.
    pub open spec fn name(self) -> Seq<char> {
        match self {
            InPlace::AddAssign => "add_assign"@,
            InPlace::SubAssign => "sub_assign"@,
            InPlace::MulAssign => "mul_assign"@,
            InPlace::DivAssign => "div_assign"@,
            InPlace::RemAssign => "rem_assign"@,
            InPlace::BitandAssign => "bitand_assign"@,
            InPlace::BitorAssign => "bitor_assign"@,
            InPlace::BitxorAssign => "bitxor_assign"@,
            InPlace::ShlAssign => "shl_assign"@,
            InPlace::ShrAssign => "shr_assign"@,
        }
    }

    /// How the operator that the method applies is written.
    pub open spec fn symbol(self) -> Seq<char> {
        match self {
            InPlace::AddAssign => "+"@,
            InPlace::SubAssign => "-"@,
            InPlace::MulAssign => "*"@,
            InPlace::DivAssign => "/"@,
            InPlace::RemAssign => "%"@,
            InPlace::BitandAssign => "&"@,
            InPlace::BitorAssign => "|"@,
            InPlace::BitxorAssign => "^"@,
            InPlace::ShlAssign => "<<"@,
            InPlace::ShrAssign => ">>"@,
        }
    }

    /// What a binding that held `v` holds after the method was called with `x`.
    pub open spec fn leaves(self, v: int, x: int) -> int {
        match self {
            InPlace::AddAssign => v + x,
            InPlace::SubAssign => v - x,
            InPlace::MulAssign => v * x,
            InPlace::DivAssign => quotient(v, x),
            InPlace::RemAssign => v - quotient(v, x) * x,
            InPlace::BitandAssign => (v as i128 & x as i128) as int,
            InPlace::BitorAssign => (v as i128 | x as i128) as int,
            InPlace::BitxorAssign => (v as i128 ^ x as i128) as int,
            InPlace::ShlAssign => (((v as i128) << (x as i128)) as int),
            InPlace::ShrAssign => (((v as i128) >> (x as i128)) as int),
        }
    }
}

/// The method leaves `v op x` where `v` was.
pub open spec fn leaves_result(method: InPlace, op: BinOp) -> bool {
    forall|v: int, x: int| operated(op, v, x) == Some(#[trigger] method.leaves(v, x))
}

/// A method of that name leaves `v op x` where `v` was.
pub open spec fn applies_operator(name: Seq<char>, op: BinOp) -> bool {
    exists|method: InPlace| #[trigger] method.name() == name && leaves_result(method, op)
}

/// The symbol is that of an operator that gives `v op x`.
pub open spec fn writes_operator(symbol: Seq<char>, op: BinOp) -> bool {
    exists|method: InPlace| #[trigger] method.symbol() == symbol && leaves_result(method, op)
}

/// An operator between two signals is written with the symbol of the operator
/// that their values had between them.
pub proof fn operators_are_written_alike(op: BinOp)
    requires
        operated(op, 1, 1) is Some,
    ensures
        writes_operator(manual_signal_zip_op::op_text(op), op),
{
    let method = match op {
        BinOp::Add => InPlace::AddAssign,
        BinOp::Sub => InPlace::SubAssign,
        BinOp::Mul => InPlace::MulAssign,
        BinOp::Div => InPlace::DivAssign,
        BinOp::Rem => InPlace::RemAssign,
        BinOp::BitAnd => InPlace::BitandAssign,
        BinOp::BitOr => InPlace::BitorAssign,
        BinOp::BitXor => InPlace::BitxorAssign,
        BinOp::Shl => InPlace::ShlAssign,
        _ => InPlace::ShrAssign,
    };
    assert(method.symbol() == manual_signal_zip_op::op_text(op));
    assert(leaves_result(method, op));
}

/// The expression reads the half of the pair that the closure takes, by the name
/// that its tuple pattern gives it or by its number.
pub open spec fn reads_half(hir: Hir, pat: usize, n: usize, second: bool) -> bool {
    match hir.kind(pat) {
        Kind::TuplePat { parts } => parts@.len() == 2 && (hir.kind(
            if second {
                parts@[1]
            } else {
                parts@[0]
            },
        ) matches Kind::Binding { name: _, id, sub: None } && hir.local(n) == Some(id)),
        Kind::Binding { name: _, id, sub: None } => hir.kind(n) matches Kind::Field { base, name }
            && hir.local(base) == Some(id) && name.name@ == (if second {
            "1"@
        } else {
            "0"@
        }),
        _ => false,
    }
}

/// The call maps `a.zip(&b)` through a closure that combines the two halves with
/// the operator, the half of `a` on the left.
pub open spec fn combines(hir: Hir, n: usize, a: usize, b: usize, op: BinOp) -> bool {
    &&& hir.kind(n) matches Kind::MethodCall { name: _, receiver, args: mapped }
    &&& mapped@.len() == 1
    &&& hir.resolves_item(n, Known::SignalMap)
    &&& hir.kind(receiver) matches Kind::MethodCall { name: _, receiver: left, args: zipped }
    &&& zipped@.len() == 1
    &&& hir.resolves_item(receiver, Known::SignalZip)
    &&& left == a
    &&& hir.unwrapped(zipped@[0]) == b
    &&& signal_map::one_param_closure(hir, mapped@[0]) matches Some(closure)
    &&& hir.kind(hir.evaluated(closure.1)) matches Kind::Binary { op: used, lhs, rhs }
    &&& used == op
    &&& reads_half(hir, closure.0, lhs, false)
    &&& reads_half(hir, closure.0, rhs, true)
}

/// The code combines the two signals with the operator, `a` first.
pub open spec fn combines_signals(hir: Hir, code: Seq<char>, a: usize, b: usize, op: BinOp) -> bool {
    match op {
        BinOp::And => code == hir.operand_or_dots(a) + ".and("@ + manual_signal_zip_op::borrowed(
            hir,
            b,
        ) + ")"@,
        BinOp::Or => code == hir.operand_or_dots(a) + ".or("@ + manual_signal_zip_op::borrowed(
            hir,
            b,
        ) + ")"@,
        _ => exists|symbol: Seq<char>| #[trigger]
            writes_operator(symbol, op) && {
                let plain = hir.owned_or_dots(a) + " "@ + symbol + " "@ + hir.owned_or_dots(b);
                code == plain || code == "("@ + plain + ")"@
            },
    }
}

/// The signal operation proposed for a mapped zip combines the same two signals,
/// in the same order, with the operator of the closure.
pub proof fn zip_fixes_combine_alike(hir: Hir, n: usize) -> (r: (usize, usize, BinOp))
    requires
        manual_signal_zip_op::finding_at(hir, n) is Some,
    ensures
        combines(hir, n, r.0, r.1, r.2),
        ({
            let finding = manual_signal_zip_op::finding_at(hir, n)->0;
            &&& finding.remarks.len() == 1
            &&& finding.remarks[0] matches RemarkView::Suggestion {
                label: _,
                span,
                code,
                applicability: _,
            }
            &&& span == hir.node(n).span
            &&& combines_signals(hir, code, r.0, r.1, r.2)
        }),
{
    let (a, b, func) = manual_signal_zip_op::zipped(hir, n)->0;
    let (pat, body) = signal_map::one_param_closure(hir, func)->0;
    let operation = manual_signal_zip_op::closure_operation(hir, a, b, func)->0;
    match hir.kind(hir.evaluated(body)) {
        Kind::Binary { op, lhs, rhs } => {
            reveal_strlit(".");
            reveal_strlit("and");
            reveal_strlit("or");
            reveal_strlit("(");
            reveal_strlit(".and(");
            reveal_strlit(".or(");
            let x = hir.operand_or_dots(a);
            assert(x + "."@ + "and"@ + "("@ =~= x + ".and("@);
            assert(x + "."@ + "or"@ + "("@ =~= x + ".or("@);
            if manual_signal_zip_op::overloadable(op) {
                operators_are_written_alike(op);
                assert(writes_operator(manual_signal_zip_op::op_text(op), op));
            }
            (a, b, op)
        },
        _ => (a, b, BinOp::Add),
    }
}

/// The method named for an operator leaves the operator's result in the binding;
/// just the arithmetic operators have one.
pub proof fn methods_apply_their_operator(op: BinOp)
    ensures
        binding::assign_name(op) matches Some(name) ==> applies_operator(name, op),
        binding::assign_name(op) is Some <==> operated(op, 1, 1) is Some,
{
    let method = match op {
        BinOp::Add => InPlace::AddAssign,
        BinOp::Sub => InPlace::SubAssign,
        BinOp::Mul => InPlace::MulAssign,
        BinOp::Div => InPlace::DivAssign,
        BinOp::Rem => InPlace::RemAssign,
        BinOp::BitAnd => InPlace::BitandAssign,
        BinOp::BitOr => InPlace::BitorAssign,
        BinOp::BitXor => InPlace::BitxorAssign,
        BinOp::Shl => InPlace::ShlAssign,
        _ => InPlace::ShrAssign,
    };
    if let Some(name) = binding::assign_name(op) {
        assert(method.name() == name);
        assert(leaves_result(method, op));
    }
}

/// Distinct operators that have a method have distinct ones.
pub proof fn operators_have_their_own_methods(a: BinOp, b: BinOp)
    requires
        binding::assign_name(a) is Some,
        binding::assign_name(a) == binding::assign_name(b),
    ensures
        a == b,
{
    reveal_strlit("add_assign");
    reveal_strlit("sub_assign");
    reveal_strlit("mul_assign");
    reveal_strlit("div_assign");
    reveal_strlit("rem_assign");
    reveal_strlit("bitand_assign");
    reveal_strlit("bitor_assign");
    reveal_strlit("bitxor_assign");
    reveal_strlit("shl_assign");
    reveal_strlit("shr_assign");
    let m = binding::assign_name(a)->0;
    let n = binding::assign_name(b)->0;
    assert(m.len() == n.len() && m[0] == n[0] && m[1] == n[1] && m[2] == n[2] && m[3] == n[3]);
}

/// The expression mentions the local nowhere.
pub open spec fn mentions_not(hir: Hir, n: usize, local: usize) -> bool {
    forall|i: int|
        0 <= i < hir.exprs(n, true).len() ==> hir.local(#[trigger] hir.exprs(n, true)[i]) != Some(
            local,
        )
}

/// The expression, blocks around it aside, is the local.
pub open spec fn is_local(hir: Hir, n: usize, local: usize) -> bool {
    hir.local(anyview::peeled(hir, n)) == Some(local)
}

/// The expression is `*v`.
pub open spec fn is_behind(hir: Hir, n: usize, param: usize) -> bool {
    hir.kind(anyview::peeled(hir, n)) matches Kind::Unary { op: UnOp::Deref, operand } && is_local(
        hir,
        operand,
        param,
    )
}

/// The expression is worth what `v` refers to: `*v`, or a clone of that.
pub open spec fn is_value_behind(hir: Hir, n: usize, param: usize) -> bool
    decreases n,
{
    let inner = anyview::peeled(hir, n);
    ||| is_behind(hir, n, param)
    ||| hir.resolves_item(inner, Known::Clone) && (hir.first_operand(inner) matches Some(cloned) && (
    is_local(hir, cloned, param) || cloned < n && is_value_behind(hir, cloned, param)))
}

proof fn lemma_value_behind(hir: Hir, n: usize, param: usize)
    ensures
        manual_binding_mutation::reads_param(hir, n, param) ==> is_value_behind(hir, n, param),
    decreases n,
{
    let inner = anyview::peeled(hir, n);
    if let Some(cloned) = hir.first_operand(inner) {
        if cloned < inner <= n {
            lemma_value_behind(hir, cloned, param);
        }
    }
}

/// The operator's method for numbers, or `append` for what can be extended.
pub open spec fn updates_with(hir: Hir, name: Seq<char>, value: usize, op: BinOp, x: usize) -> bool {
    ||| applies_operator(name, op) && hir.node(x).adjusted == value
    ||| name == "append"@ && op == BinOp::Add && binding::appends(hir, value, hir.node(x).adjusted)
}

/// A call of the named method with that operand does what the assignment in the
/// closure does to the value behind its parameter.
pub open spec fn does_as_assigned(
    hir: Hir,
    value: usize,
    mutation: usize,
    param: usize,
    name: Seq<char>,
    arg: Option<usize>,
) -> bool {
    match hir.kind(mutation) {
        // `*v op= x`
        Kind::AssignOp { op, lhs, rhs } => is_behind(hir, lhs, param) && arg == Some(rhs) && mentions_not(hir, rhs, param)
            && updates_with(hir, name, value, op, rhs),
        Kind::Assign { lhs, rhs } => is_behind(hir, lhs, param) && ({
            // `*v = x`
            ||| name == "set"@ && arg == Some(rhs) && mentions_not(hir, rhs, param)
            // `*v = !*v`
            ||| name == "toggle"@ && arg is None && hir.ty(value).kind is Bool && (hir.kind(
                rhs,
            ) matches Kind::Unary { op: UnOp::Not, operand }
                && is_value_behind(hir, operand, param))
            // `*v = *v op x`
            ||| hir.kind(rhs) matches Kind::Binary { op, lhs: l, rhs: x }
                && is_value_behind(hir, l, param) && arg == Some(x)
                && mentions_not(hir, x, param) && updates_with(hir, name, value, op, x)
        }),
        // `v.push(x)`, `v.extend([x])`
        Kind::MethodCall { name: _, receiver, args } => (is_local(hir, receiver, param)
            || is_value_behind(hir, receiver, param)) && name == "append"@ && args@.len() == 1 && (
        arg == Some(args@[0]) && hir.resolves(
            mutation,
            seq![Known::VecPush, Known::StringPush, Known::PushStr],
        ) || hir.resolves_item(mutation, Known::ExtendFn) && arg
            == manual_binding_mutation::one_element(hir, args@[0])),
        _ => false,
    }
}

/// The method that a mutation restates does what the mutation did, and only a
/// mutation of the closure's own parameter restates one.
pub proof fn restated_methods_do_the_same(
    hir: Hir,
    b: usize,
    value: usize,
    mutation: usize,
    param: usize,
)
    ensures
        manual_binding_mutation::restated(hir, b, value, mutation, param) matches Some(found)
            ==> does_as_assigned(hir, value, mutation, param, found.0, found.1) && !(
        found.1 matches Some(x) && manual_binding_mutation::reads_back(hir, x, b)),
{
    if let Some((name, arg)) = manual_binding_mutation::restated(hir, b, value, mutation, param) {
        match hir.kind(mutation) {
            Kind::AssignOp { op, lhs: _, rhs: _ } => {
                methods_apply_their_operator(op);
            },
            Kind::Assign { lhs: _, rhs } => match hir.kind(rhs) {
                Kind::Binary { op, lhs, rhs: _ } => {
                    methods_apply_their_operator(op);
                    lemma_value_behind(hir, lhs, param);
                },
                Kind::Unary { op: _, operand } => {
                    lemma_value_behind(hir, operand, param);
                },
                _ => {},
            },
            Kind::MethodCall { name: _, receiver, args: _ } => {
                lemma_value_behind(hir, receiver, param);
            },
            _ => {},
        }
    }
}

/// The place is `*b.get_mut()`.
pub open spec fn is_guard_of(hir: Hir, lhs: usize, b: usize) -> bool {
    hir.kind(anyview::peeled(hir, lhs)) matches Kind::Unary { op: UnOp::Deref, operand }
        && hir.resolves_item(operand, Known::BindingGetMut) && (hir.first_operand(
        operand,
    ) matches Some(receiver) && hir.unwrapped(receiver) == b)
}

/// The call converts `x` and nothing else.
pub open spec fn converts(hir: Hir, call: usize, x: usize) -> bool {
    match hir.kind(call) {
        Kind::MethodCall { name: _, receiver, args } => args@.len() == 0 && receiver == x,
        Kind::Call { func: _, args } => args@ == seq![x],
        _ => false,
    }
}

/// `b.<method>(<arg>)` does to `b` what the expression did.
pub open spec fn does_as_written(
    hir: Hir,
    n: usize,
    b: usize,
    value: usize,
    method: Seq<char>,
    arg: Option<usize>,
) -> bool {
    match hir.kind(n) {
        // `*b.get_mut() = x`
        Kind::Assign { lhs, rhs } => is_guard_of(hir, lhs, b) && method == "set"@ && arg == Some(
            rhs,
        ),
        // `*b.get_mut() op= x`
        Kind::AssignOp { op, lhs, rhs } => is_guard_of(hir, lhs, b) && arg == Some(rhs)
            && updates_with(hir, method, value, op, rhs),
        _ => hir.operands(n).len() == 2 && hir.unwrapped(hir.operands(n)[0]) == b && ({
            // `b.with_mut(|v| ..)`
            ||| hir.resolves_item(n, Known::BindingWithMut) && (
            manual_binding_mutation::plain_param(hir, hir.operands(n)[1]) matches Some(closure) && (
            manual_binding_mutation::sole_mutation(hir, closure.1) matches Some(mutation)
                && does_as_assigned(hir, value, mutation, closure.0, method, arg)))
            // `b.set(x.into())`
            ||| hir.resolves_item(n, Known::BindingSet) && (arg matches Some(x) && converts(
                hir,
                anyview::peeled(hir, hir.operands(n)[1]),
                x,
            ) && (method == "set"@ && hir.node(x).adjusted == value || method == "set_from"@ && hir.ty(
                hir.node(x).adjusted,
            ).implements(Trait::Into, seq![value])))
        }),
    }
}

/// The finding stands at the expression, names the method, and where it has a
/// replacement that is the call of the method on `b` with that operand.
pub open spec fn proposes(
    hir: Hir,
    finding: DiagnosticView,
    n: usize,
    b: usize,
    method: Seq<char>,
    arg: Option<usize>,
) -> bool {
    &&& finding.span == hir.node(n).span
    &&& finding.message == "this mutation restates `Binding::"@ + method + "`"@
    &&& finding.remarks.len() == 1
    &&& match (hir.source(b), arg) {
        (Some(source), None) => finding.remarks[0] matches RemarkView::Suggestion {
            label: _,
            span,
            code,
            applicability: _,
        } && span == hir.node(n).span && code == source + "."@ + method + "()"@,
        (Some(source), Some(x)) => match hir.source(x) {
            Some(operand) => hir.node(x).coercion is Identity ==> (
            finding.remarks[0] matches RemarkView::Suggestion {
                label: _,
                span,
                code,
                applicability: _,
            } && span == hir.node(n).span && code == source + "."@ + method + "("@ + operand
                + ")"@),
            None => finding.remarks[0] is Help,
        },
        (None, _) => finding.remarks[0] is Help,
    }
}

/// The finding says so of some binding.
pub open spec fn proposes_the_same(hir: Hir, finding: DiagnosticView, n: usize) -> bool {
    exists|b: usize, value: usize, method: Seq<char>, arg: Option<usize>|
        proposes(hir, finding, n, b, method, arg) && #[trigger] does_as_written(
            hir,
            n,
            b,
            value,
            method,
            arg,
        )
}

proof fn lemma_proposes(hir: Hir, n: usize, b: usize, method: Seq<char>, arg: Option<usize>)
    ensures
        proposes(
            hir,
            manual_binding_mutation::report_of(hir, n, b, method, arg),
            n,
            b,
            method,
            arg,
        ),
{
    if let (Some(source), Some(x)) = (hir.source(b), arg) {
        if let Some(operand) = hir.source(x) {
            assert(source + "."@ + method + "("@ + (operand + ")"@) =~= source + "."@ + method
                + "("@ + operand + ")"@);
        }
    }
}

/// Every method call proposed for a mutation leaves in the binding what the
/// mutation did.
pub proof fn proposed_calls_do_the_same(hir: Hir, n: usize)
    ensures
        manual_binding_mutation::finding_at(hir, n) matches Some(finding) ==> proposes_the_same(
            hir,
            finding,
            n,
        ),
{
    if let Some(finding) = manual_binding_mutation::finding_at(hir, n) {
        match hir.kind(n) {
            Kind::Assign { lhs, rhs } => {
                let (b, value) = manual_binding_mutation::mutated_through(hir, lhs)->0;
                lemma_proposes(hir, n, b, "set"@, Some(rhs));
                assert(does_as_written(hir, n, b, value, "set"@, Some(rhs)));
            },
            Kind::AssignOp { op, lhs, rhs } => {
                let (b, value) = manual_binding_mutation::mutated_through(hir, lhs)->0;
                let method = manual_binding_mutation::operator_method(
                    hir,
                    value,
                    op,
                    hir.node(rhs).adjusted,
                )->0;
                methods_apply_their_operator(op);
                lemma_proposes(hir, n, b, method, Some(rhs));
                assert(does_as_written(hir, n, b, value, method, Some(rhs)));
            },
            _ => {
                let args = hir.operands(n);
                let b = hir.unwrapped(args[0]);
                let value = binding::value_of(hir, args[0])->0;
                if hir.resolves_item(n, Known::BindingWithMut) {
                    let (param, body) = manual_binding_mutation::plain_param(hir, args[1])->0;
                    let mutation = manual_binding_mutation::sole_mutation(hir, body)->0;
                    restated_methods_do_the_same(hir, b, value, mutation, param);
                    let (method, arg) = manual_binding_mutation::restated(
                        hir,
                        b,
                        value,
                        mutation,
                        param,
                    )->0;
                    lemma_proposes(hir, n, b, method, arg);
                    assert(does_as_written(hir, n, b, value, method, arg));
                } else {
                    let arg = anyview::peeled(hir, args[1]);
                    let x = manual_binding_mutation::converted(hir, arg)->0;
                    let method = manual_binding_mutation::set_method(hir, x, value)->0;
                    lemma_proposes(hir, n, b, method, Some(x));
                    match hir.kind(arg) {
                        Kind::Call { func: _, args } => {
                            assert(args@ =~= seq![x]);
                        },
                        _ => {},
                    }
                    assert(does_as_written(hir, n, b, value, method, Some(x)));
                }
            },
        }
    }
}

/// An assignment through the closure's parameter whose right side mentions
/// neither the parameter nor the binding restates `set`; and an arithmetic
/// assignment with an operand of the value's own type restates the operator's
/// method.
pub proof fn assignments_restate_a_method(
    hir: Hir,
    b: usize,
    value: usize,
    mutation: usize,
    param: usize,
)
    ensures
        hir.kind(mutation) matches Kind::Assign { lhs, rhs } ==> (is_behind(hir, lhs, param)
            && mentions_not(hir, rhs, param) && !manual_binding_mutation::reads_back(hir, rhs, b)
            ==> manual_binding_mutation::restated(hir, b, value, mutation, param) == Some(
            ("set"@, Some(rhs)),
        )),
        hir.kind(mutation) matches Kind::AssignOp { op, lhs, rhs } ==> (is_behind(hir, lhs, param)
            && mentions_not(hir, rhs, param) && !manual_binding_mutation::reads_back(hir, rhs, b)
            && operated(op, 1, 1) is Some && hir.node(rhs).adjusted == value && hir.ty(
            value,
        ).known_clone() && hir.ty(value).implements(Trait::OpSelf(op), seq![])
            ==> manual_binding_mutation::restated(hir, b, value, mutation, param) is Some),
{
    if let Kind::AssignOp { op, lhs: _, rhs: _ } = hir.kind(mutation) {
        methods_apply_their_operator(op);
    }
}

} // verus!
