//! What operators, methods and signal combinators compute on values, and the laws
//! that a fix computes what the code it replaces did.

use crate::diagnostics::RemarkView;
use crate::hir::{BinOp, Hir, Kind, Lit, Res, TyKind, UnOp};
use crate::known::Known;
use crate::manual_signal_combinator;
use vstd::prelude::*;

verus! {

/// A value that a signal can hold.
pub ghost enum Value {
    Bool(bool),
    Num(int),
    Text(Seq<char>),
    /// `None`.
    Nothing,
    /// `Some(..)`.
    Just(Box<Value>),
    /// `Ok(..)`.
    Good(Box<Value>),
    /// `Err(..)`.
    Bad(Box<Value>),
    /// Any other value.
    Other(int),
}

/// What the code around a closure gives: the values of expressions, what
/// callables return, and how values of one type are ordered and converted.
pub ghost struct Env {
    pub value: spec_fn(usize) -> Value,
    pub called: spec_fn(usize, Seq<Value>) -> Value,
    /// Negative, zero or positive, as the first is less than, equal to or greater
    /// than the second.
    pub order: spec_fn(Value, Value) -> int,
    pub converted: spec_fn(Value) -> Value,
    pub default: Value,
}

/// The expression names the variant `item`.
pub open spec fn names_variant(hir: Hir, n: usize, item: Known) -> bool {
    match hir.kind(n) {
        Kind::Path { plain: _, segments: _, res: Res::Def { def, kind } } => kind is Ctor
            && hir.is_def(hir.target(def), item),
        _ => false,
    }
}

impl Env {
    /// Literals, `None`, `Some(..)` and blocks that only hold a value are worth
    /// what they spell, and numbers are ordered as numbers.
    pub open spec fn sound(self, hir: Hir) -> bool {
        &&& forall|n: usize| #[trigger]
            hir.kind(n) matches Kind::Lit { lit } ==> match lit {
                Lit::Int { value, suffixed: _ } => (self.value)(n) == Value::Num(value as int),
                Lit::Float { digits: _, zero, suffixed: _ } => zero ==> (self.value)(n)
                    == Value::Num(0),
                _ => true,
            }
        &&& forall|n: usize|
            #[trigger] names_variant(hir, n, Known::OptionNone) ==> (self.value)(n)
                == Value::Nothing
        &&& forall|n: usize| #[trigger]
            hir.kind(n) matches Kind::Call { func, args } ==> (args@.len() == 1 && names_variant(
                hir,
                func,
                Known::OptionSome,
            ) ==> (self.value)(n) == Value::Just(Box::new((self.value)(args@[0]))))
        &&& forall|n: usize| (self.value)(#[trigger] hir.evaluated(n)) == (self.value)(n)
        &&& forall|a: int, b: int| #[trigger]
            (self.order)(Value::Num(a), Value::Num(b)) == a - b
    }

    /// The expressions of the type have values of the type.
    pub open spec fn typed(self, hir: Hir, t: usize) -> bool {
        forall|n: usize| hir.node(n).ty == t ==> has_type(hir, t, #[trigger] (self.value)(n))
    }
}

/// The value is one of the type.
pub open spec fn has_type(hir: Hir, t: usize, v: Value) -> bool {
    &&& hir.ty(t).kind is Bool ==> v is Bool
    &&& hir.ty(t).kind is Int || hir.ty(t).kind is Float ==> v is Num
    &&& hir.ty(t).kind is Uint ==> (v matches Value::Num(x) && x >= 0)
    &&& hir.ty_is(t, Known::OptionTy) ==> v is Nothing || v is Just
    &&& hir.ty_is(t, Known::ResultTy) ==> v is Good || v is Bad
    &&& hir.stringy(t) ==> v is Text
}

/// What `a op b` is worth for a comparison.
pub open spec fn compared(env: Env, op: BinOp, a: Value, b: Value) -> Option<Value> {
    match op {
        BinOp::Eq => Some(Value::Bool(a == b)),
        BinOp::Ne => Some(Value::Bool(a != b)),
        BinOp::Lt => Some(Value::Bool((env.order)(a, b) < 0)),
        BinOp::Le => Some(Value::Bool((env.order)(a, b) <= 0)),
        BinOp::Gt => Some(Value::Bool((env.order)(a, b) > 0)),
        BinOp::Ge => Some(Value::Bool((env.order)(a, b) >= 0)),
        _ => None,
    }
}

/// What `!v` is worth.
pub open spec fn flipped(v: Value) -> Value {
    match v {
        Value::Bool(b) => Value::Bool(!b),
        _ => v,
    }
}

/// The text holds the part somewhere.
pub open spec fn holds_text(s: Seq<char>, part: Seq<char>) -> bool {
    exists|i: int|
        0 <= i && i + part.len() <= s.len() && #[trigger] s.subrange(i, i + part.len()) == part
}

/// The named combinators of a signal.
pub ghost enum Combinator {
    Not,
    Negate,
    Abs,
    EqualTo,
    Gt,
    Lt,
    Ge,
    Le,
    IsZero,
    IsPositive,
    IsNegative,
    IsSome,
    IsNone,
    SomeEqualTo,
    UnwrapOr,
    UnwrapOrElse,
    UnwrapOrDefault,
    Flatten,
    MapSome,
    AndThenSome,
    IsOk,
    IsErr,
    UnwrapOrResult,
    UnwrapOrElseResult,
    TakeOk,
    TakeErr,
    MapOk,
    MapErr,
    StrIsEmpty,
    StrLen,
    StrContains,
    Select,
    ThenSome,
}

impl Combinator {
    /// How a combinator is called.
    pub open spec fn name(self) -> Seq<char> {
        match self {
            Combinator::Not => "not"@,
            Combinator::Negate => "negate"@,
            Combinator::Abs => "abs"@,
            Combinator::EqualTo => "equal_to"@,
            Combinator::Gt => "gt"@,
            Combinator::Lt => "lt"@,
            Combinator::Ge => "ge"@,
            Combinator::Le => "le"@,
            Combinator::IsZero => "is_zero"@,
            Combinator::IsPositive => "is_positive"@,
            Combinator::IsNegative => "is_negative"@,
            Combinator::IsSome => "is_some"@,
            Combinator::IsNone => "is_none"@,
            Combinator::SomeEqualTo => "some_equal_to"@,
            Combinator::UnwrapOr => "unwrap_or"@,
            Combinator::UnwrapOrElse => "unwrap_or_else"@,
            Combinator::UnwrapOrDefault => "unwrap_or_default"@,
            Combinator::Flatten => "flatten"@,
            Combinator::MapSome => "map_some"@,
            Combinator::AndThenSome => "and_then_some"@,
            Combinator::IsOk => "is_ok"@,
            Combinator::IsErr => "is_err"@,
            Combinator::UnwrapOrResult => "unwrap_or_result"@,
            Combinator::UnwrapOrElseResult => "unwrap_or_else_result"@,
            Combinator::TakeOk => "ok"@,
            Combinator::TakeErr => "err"@,
            Combinator::MapOk => "map_ok"@,
            Combinator::MapErr => "map_err"@,
            Combinator::StrIsEmpty => "str_is_empty"@,
            Combinator::StrLen => "str_len"@,
            Combinator::StrContains => "str_contains"@,
            Combinator::Select => "select"@,
            Combinator::ThenSome => "then_some"@,
        }
    }

    /// How many operands a combinator takes.
    pub open spec fn arity(self) -> nat {
        match self {
            Combinator::Select => 2,
            Combinator::EqualTo
            | Combinator::Gt
            | Combinator::Lt
            | Combinator::Ge
            | Combinator::Le
            | Combinator::SomeEqualTo
            | Combinator::UnwrapOr
            | Combinator::UnwrapOrElse
            | Combinator::MapSome
            | Combinator::AndThenSome
            | Combinator::UnwrapOrResult
            | Combinator::UnwrapOrElseResult
            | Combinator::MapOk
            | Combinator::MapErr
            | Combinator::StrContains
            | Combinator::ThenSome => 1,
            _ => 0,
        }
    }

    /// What the signal holds where the receiver holds `v`.
    pub open spec fn computes(self, env: Env, v: Value, args: Seq<usize>) -> Value {
        let first = (env.value)(args[0]);
        match (self, v) {
            (Combinator::Not, _) => flipped(v),
            (Combinator::Negate, Value::Num(x)) => Value::Num(-x),
            (Combinator::Abs, Value::Num(x)) => Value::Num(
                if x < 0 {
                    -x
                } else {
                    x
                },
            ),
            (Combinator::EqualTo, _) => Value::Bool(v == first),
            (Combinator::Gt, _) => Value::Bool((env.order)(v, first) > 0),
            (Combinator::Lt, _) => Value::Bool((env.order)(v, first) < 0),
            (Combinator::Ge, _) => Value::Bool((env.order)(v, first) >= 0),
            (Combinator::Le, _) => Value::Bool((env.order)(v, first) <= 0),
            (Combinator::IsZero, Value::Num(x)) => Value::Bool(x == 0),
            (Combinator::IsPositive, Value::Num(x)) => Value::Bool(x > 0),
            (Combinator::IsNegative, Value::Num(x)) => Value::Bool(x < 0),
            (Combinator::IsSome, _) => Value::Bool(v is Just),
            (Combinator::IsNone, _) => Value::Bool(v is Nothing),
            (Combinator::SomeEqualTo, _) => Value::Bool(v == Value::Just(Box::new(first))),
            (Combinator::UnwrapOr, Value::Just(x)) => *x,
            (Combinator::UnwrapOr, Value::Nothing) => first,
            (Combinator::UnwrapOrElse, Value::Just(x)) => *x,
            (Combinator::UnwrapOrElse, Value::Nothing) => (env.called)(args[0], seq![]),
            (Combinator::UnwrapOrDefault, Value::Just(x)) => *x,
            (Combinator::UnwrapOrDefault, Value::Nothing) => env.default,
            (Combinator::Flatten, Value::Just(x)) => *x,
            (Combinator::Flatten, Value::Nothing) => Value::Nothing,
            (Combinator::MapSome, Value::Just(x)) => Value::Just(
                Box::new((env.called)(args[0], seq![*x])),
            ),
            (Combinator::MapSome, Value::Nothing) => Value::Nothing,
            (Combinator::AndThenSome, Value::Just(x)) => (env.called)(args[0], seq![*x]),
            (Combinator::AndThenSome, Value::Nothing) => Value::Nothing,
            (Combinator::IsOk, _) => Value::Bool(v is Good),
            (Combinator::IsErr, _) => Value::Bool(v is Bad),
            (Combinator::UnwrapOrResult, Value::Good(x)) => *x,
            (Combinator::UnwrapOrResult, Value::Bad(_)) => first,
            (Combinator::UnwrapOrElseResult, Value::Good(x)) => *x,
            (Combinator::UnwrapOrElseResult, Value::Bad(e)) => (env.called)(args[0], seq![*e]),
            (Combinator::TakeOk, Value::Good(x)) => Value::Just(x),
            (Combinator::TakeOk, Value::Bad(_)) => Value::Nothing,
            (Combinator::TakeErr, Value::Bad(x)) => Value::Just(x),
            (Combinator::TakeErr, Value::Good(_)) => Value::Nothing,
            (Combinator::MapOk, Value::Good(x)) => Value::Good(
                Box::new((env.called)(args[0], seq![*x])),
            ),
            (Combinator::MapOk, Value::Bad(_)) => v,
            (Combinator::MapErr, Value::Bad(x)) => Value::Bad(
                Box::new((env.called)(args[0], seq![*x])),
            ),
            (Combinator::MapErr, Value::Good(_)) => v,
            (Combinator::StrIsEmpty, Value::Text(s)) => Value::Bool(s.len() == 0),
            (Combinator::StrLen, Value::Text(s)) => Value::Num(
                vstd::utf8::encode_utf8(s).len() as int,
            ),
            (Combinator::StrContains, Value::Text(s)) => match first {
                Value::Text(part) => Value::Bool(holds_text(s, part)),
                _ => v,
            },
            (Combinator::Select, Value::Bool(b)) => if b {
                first
            } else {
                (env.value)(args[1])
            },
            (Combinator::ThenSome, Value::Bool(b)) => if b {
                Value::Just(Box::new(first))
            } else {
                Value::Nothing
            },
            _ => v,
        }
    }
}

/// The methods of `Option`, `Result`, numbers, booleans and strings that have a
/// combinator.
pub ghost enum Method {
    IsSome,
    IsNone,
    IsOk,
    IsErr,
    IsEmpty,
    Len,
    Abs,
    UnwrapOrDefault,
    Flatten,
    TakeOk,
    TakeErr,
    Contains,
    UnwrapOr,
    UnwrapOrElse,
    Mapped,
    AndThen,
    MapErr,
    ThenSome,
}

impl Method {
    /// How a method is called.
    pub open spec fn name(self) -> Seq<char> {
        match self {
            Method::IsSome => "is_some"@,
            Method::IsNone => "is_none"@,
            Method::IsOk => "is_ok"@,
            Method::IsErr => "is_err"@,
            Method::IsEmpty => "is_empty"@,
            Method::Len => "len"@,
            Method::Abs => "abs"@,
            Method::UnwrapOrDefault => "unwrap_or_default"@,
            Method::Flatten => "flatten"@,
            Method::TakeOk => "ok"@,
            Method::TakeErr => "err"@,
            Method::Contains => "contains"@,
            Method::UnwrapOr => "unwrap_or"@,
            Method::UnwrapOrElse => "unwrap_or_else"@,
            Method::Mapped => "map"@,
            Method::AndThen => "and_then"@,
            Method::MapErr => "map_err"@,
            Method::ThenSome => "then_some"@,
        }
    }

    /// What the call on `v` is worth.
    pub open spec fn computes(self, env: Env, v: Value, args: Seq<usize>) -> Value {
        let first = (env.value)(args[0]);
        match (self, v) {
            (Method::IsSome, _) => Value::Bool(v is Just),
            (Method::IsNone, _) => Value::Bool(v is Nothing),
            (Method::IsOk, _) => Value::Bool(v is Good),
            (Method::IsErr, _) => Value::Bool(v is Bad),
            (Method::IsEmpty, Value::Text(s)) => Value::Bool(s.len() == 0),
            (Method::Len, Value::Text(s)) => Value::Num(vstd::utf8::encode_utf8(s).len() as int),
            (Method::Abs, Value::Num(x)) => Value::Num(
                if x < 0 {
                    -x
                } else {
                    x
                },
            ),
            (Method::UnwrapOrDefault, Value::Just(x)) => *x,
            (Method::UnwrapOrDefault, Value::Nothing) => env.default,
            (Method::Flatten, Value::Just(x)) => *x,
            (Method::Flatten, Value::Nothing) => Value::Nothing,
            (Method::TakeOk, Value::Good(x)) => Value::Just(x),
            (Method::TakeOk, Value::Bad(_)) => Value::Nothing,
            (Method::TakeErr, Value::Bad(x)) => Value::Just(x),
            (Method::TakeErr, Value::Good(_)) => Value::Nothing,
            (Method::Contains, Value::Text(s)) => match first {
                Value::Text(part) => Value::Bool(holds_text(s, part)),
                _ => v,
            },
            (Method::UnwrapOr, Value::Just(x)) => *x,
            (Method::UnwrapOr, Value::Good(x)) => *x,
            (Method::UnwrapOr, Value::Nothing) => first,
            (Method::UnwrapOr, Value::Bad(_)) => first,
            (Method::UnwrapOrElse, Value::Just(x)) => *x,
            (Method::UnwrapOrElse, Value::Good(x)) => *x,
            (Method::UnwrapOrElse, Value::Nothing) => (env.called)(args[0], seq![]),
            (Method::UnwrapOrElse, Value::Bad(e)) => (env.called)(args[0], seq![*e]),
            (Method::Mapped, Value::Just(x)) => Value::Just(
                Box::new((env.called)(args[0], seq![*x])),
            ),
            (Method::Mapped, Value::Nothing) => Value::Nothing,
            (Method::Mapped, Value::Good(x)) => Value::Good(
                Box::new((env.called)(args[0], seq![*x])),
            ),
            (Method::Mapped, Value::Bad(_)) => v,
            (Method::AndThen, Value::Just(x)) => (env.called)(args[0], seq![*x]),
            (Method::AndThen, Value::Nothing) => Value::Nothing,
            (Method::MapErr, Value::Bad(x)) => Value::Bad(
                Box::new((env.called)(args[0], seq![*x])),
            ),
            (Method::MapErr, Value::Good(_)) => v,
            (Method::ThenSome, Value::Bool(b)) => if b {
                Value::Just(Box::new(first))
            } else {
                Value::Nothing
            },
            _ => v,
        }
    }
}

/// What an operand of the body is worth: the closure's parameter holds `v`.
pub open spec fn part(hir: Hir, env: Env, n: usize, param: usize, v: Value) -> Value {
    if hir.local(n) == Some(param) {
        v
    } else {
        (env.value)(n)
    }
}

/// What a closure body that is no method call is worth where its parameter holds
/// `v`.
pub open spec fn body_value(hir: Hir, env: Env, n: usize, param: usize, v: Value) -> Option<Value> {
    if hir.local(n) == Some(param) {
        Some(v)
    } else {
        match hir.kind(n) {
            Kind::Unary { op: UnOp::Not, operand } => Some(
                flipped(part(hir, env, operand, param, v)),
            ),
            Kind::Unary { op: UnOp::Neg, operand } => match part(hir, env, operand, param, v) {
                Value::Num(x) => Some(Value::Num(-x)),
                _ => None,
            },
            Kind::Binary { op, lhs, rhs } => compared(
                env,
                op,
                part(hir, env, lhs, param, v),
                part(hir, env, rhs, param, v),
            ),
            Kind::If { cond, then, els: Some(els) } => match part(hir, env, cond, param, v) {
                Value::Bool(b) => Some(
                    if b {
                        part(hir, env, then, param, v)
                    } else {
                        part(hir, env, els, param, v)
                    },
                ),
                _ => None,
            },
            _ => None,
        }
    }
}

/// A combinator of that name, over those operands, holds `value` where the
/// receiver holds `v`.
pub open spec fn restates(
    env: Env,
    name: Seq<char>,
    args: Seq<usize>,
    not: bool,
    v: Value,
    value: Value,
) -> bool {
    exists|c: Combinator| restates_as(c, env, name, args, not, v, value)
}

/// The combinator is it.
pub open spec fn restates_as(
    c: Combinator,
    env: Env,
    name: Seq<char>,
    args: Seq<usize>,
    not: bool,
    v: Value,
    value: Value,
) -> bool {
    &&& c.name() == name
    &&& c.arity() == args.len()
    &&& value == (if not {
        flipped(c.computes(env, v, args))
    } else {
        c.computes(env, v, args)
    })
}

/// An expression without the parameter in it is no read of the parameter.
proof fn lemma_free_is_no_read(hir: Hir, n: usize, param: usize)
    requires
        manual_signal_combinator::free_of(hir, n, param),
    ensures
        hir.local(n) != Some(param),
{
    if hir.local(n) == Some(param) {
        reveal_with_fuel(Hir::walk, 2);
        let list = hir.exprs(n, true);
        assert(hir.kind(n).is_expr());
        assert(seq![n].drop_last() =~= seq![]);
        assert(list[0] == n);
        assert(manual_signal_combinator::reads(hir, list[0], param));
    }
}

/// The combinator that stands for a comparison `v op e` holds what the comparison
/// gives, whatever `v` is.
pub proof fn comparisons_keep_their_value(
    hir: Hir,
    env: Env,
    op: BinOp,
    rhs: usize,
    param: usize,
    output: usize,
    v: Value,
)
    requires
        env.sound(hir),
        has_type(hir, output, v),
        has_type(hir, output, (env.value)(rhs)),
    ensures
        manual_signal_combinator::binary_rewrite(hir, op, rhs, param, output) matches Some(
            rewrite,
        ) ==> {
            &&& rewrite matches manual_signal_combinator::RewriteView::Named { name, args, not }
            &&& compared(env, op, v, (env.value)(rhs)) matches Some(value)
            &&& restates(env, name, args, not, v, value)
        },
{
    if let Some(manual_signal_combinator::RewriteView::Named { name, args, not }) =
        manual_signal_combinator::binary_rewrite(hir, op, rhs, param, output) {
        let e = (env.value)(rhs);
        let value = compared(env, op, v, e)->0;
        assert(names_variant(hir, rhs, Known::OptionNone) == manual_signal_combinator::constructs(
            hir,
            rhs,
            Known::OptionNone,
        ));
        if let Value::Num(x) = v {
            assert((env.order)(Value::Num(x), Value::Num(0)) == x - 0);
        }
        match hir.kind(rhs) {
            Kind::Call { func, args: operands } => {
                assert(names_variant(hir, func, Known::OptionSome)
                    == manual_signal_combinator::constructs(hir, func, Known::OptionSome));
            },
            _ => {},
        }
        let c = match op {
            BinOp::Eq => if manual_signal_combinator::is_zero(hir, rhs)
                && manual_signal_combinator::numeric(hir, output) {
                Combinator::IsZero
            } else if args.len() == 0 {
                Combinator::IsNone
            } else if manual_signal_combinator::some_of(hir, rhs) is Some && hir.ty_is(
                output,
                Known::OptionTy,
            ) {
                Combinator::SomeEqualTo
            } else {
                Combinator::EqualTo
            },
            BinOp::Ne => if args.len() == 0 {
                Combinator::IsSome
            } else {
                Combinator::EqualTo
            },
            BinOp::Gt => if args.len() == 0 {
                Combinator::IsPositive
            } else {
                Combinator::Gt
            },
            BinOp::Lt => if args.len() == 0 {
                Combinator::IsNegative
            } else {
                Combinator::Lt
            },
            BinOp::Ge => Combinator::Ge,
            _ => Combinator::Le,
        };
        assert(restates_as(c, env, name, args, not, v, value));
    }
}

proof fn lemma_nullary(
    hir: Hir,
    env: Env,
    name: Seq<char>,
    own: usize,
    output: usize,
    args: Seq<usize>,
    v: Value,
) -> (m: Method)
    requires
        has_type(hir, output, v),
        args.len() == 0,
    ensures
        manual_signal_combinator::nullary_rewrite(hir, name, own, output) matches Some(rewrite)
            ==> m.name() == name && rewrites_to(env, rewrite, v, m.computes(env, v, args)),
{
    let (m, c) = if name == "is_some"@ {
        (Method::IsSome, Combinator::IsSome)
    } else if name == "is_none"@ {
        (Method::IsNone, Combinator::IsNone)
    } else if name == "is_ok"@ {
        (Method::IsOk, Combinator::IsOk)
    } else if name == "is_err"@ {
        (Method::IsErr, Combinator::IsErr)
    } else if name == "is_empty"@ {
        (Method::IsEmpty, Combinator::StrIsEmpty)
    } else if name == "len"@ {
        (Method::Len, Combinator::StrLen)
    } else if name == "abs"@ {
        (Method::Abs, Combinator::Abs)
    } else if name == "unwrap_or_default"@ {
        (Method::UnwrapOrDefault, Combinator::UnwrapOrDefault)
    } else if name == "flatten"@ {
        (Method::Flatten, Combinator::Flatten)
    } else if name == "ok"@ {
        (Method::TakeOk, Combinator::TakeOk)
    } else {
        (Method::TakeErr, Combinator::TakeErr)
    };
    if let Some(manual_signal_combinator::RewriteView::Named { name: called, args: taken, not }) =
        manual_signal_combinator::nullary_rewrite(hir, name, own, output) {
        assert(restates_as(c, env, called, taken, not, v, m.computes(env, v, args)));
    }
    m
}

proof fn lemma_unary(
    hir: Hir,
    env: Env,
    name: Seq<char>,
    own: usize,
    param: usize,
    output: usize,
    args: Seq<usize>,
    v: Value,
) -> (m: Method)
    requires
        has_type(hir, output, v),
        args.len() == 1,
    ensures
        manual_signal_combinator::unary_rewrite(
            hir,
            name,
            args[0],
            own,
            param,
            output,
        ) matches Some(rewrite) ==> m.name() == name && rewrites_to(
            env,
            rewrite,
            v,
            m.computes(env, v, args),
        ),
{
    let fallible = v is Good || v is Bad;
    let (m, c) = if name == "contains"@ {
        (Method::Contains, Combinator::StrContains)
    } else if name == "unwrap_or"@ {
        (
            Method::UnwrapOr,
            if fallible {
                Combinator::UnwrapOrResult
            } else {
                Combinator::UnwrapOr
            },
        )
    } else if name == "unwrap_or_else"@ {
        (
            Method::UnwrapOrElse,
            if fallible {
                Combinator::UnwrapOrElseResult
            } else {
                Combinator::UnwrapOrElse
            },
        )
    } else if name == "map"@ {
        (
            Method::Mapped,
            if fallible {
                Combinator::MapOk
            } else {
                Combinator::MapSome
            },
        )
    } else if name == "and_then"@ {
        (Method::AndThen, Combinator::AndThenSome)
    } else if name == "map_err"@ {
        (Method::MapErr, Combinator::MapErr)
    } else {
        (Method::ThenSome, Combinator::ThenSome)
    };
    if let Some(manual_signal_combinator::RewriteView::Named { name: called, args: taken, not }) =
        manual_signal_combinator::unary_rewrite(hir, name, args[0], own, param, output) {
        assert(taken =~= args);
        assert(restates_as(c, env, called, taken, not, v, m.computes(env, v, args)));
    }
    m
}

/// The rewrite is a combinator that holds `value` where the receiver holds `v`.
pub open spec fn rewrites_to(
    env: Env,
    rewrite: manual_signal_combinator::RewriteView,
    v: Value,
    value: Value,
) -> bool {
    rewrite matches manual_signal_combinator::RewriteView::Named { name, args, not } && restates(
        env,
        name,
        args,
        not,
        v,
        value,
    )
}

/// The rewrite holds what the method call on the closure's parameter gives.
pub open spec fn rewrites_method(
    env: Env,
    rewrite: manual_signal_combinator::RewriteView,
    called: Seq<char>,
    args: Seq<usize>,
    v: Value,
) -> bool {
    exists|m: Method| #[trigger]
        m.name() == called && rewrites_to(env, rewrite, v, m.computes(env, v, args))
}

/// The rewrite holds what the closure's body gives where its parameter holds `v`.
pub open spec fn rewrites_body(
    hir: Hir,
    env: Env,
    body: usize,
    param: usize,
    rewrite: manual_signal_combinator::RewriteView,
    v: Value,
) -> bool {
    if hir.local(body) == Some(param) {
        rewrite is Identity
    } else {
        match hir.kind(body) {
            Kind::MethodCall { name, receiver, args } => hir.local(receiver) == Some(param) && ({
                ||| rewrite is Identity && name.name@ == "clone"@ && args@.len() == 0
                ||| rewrite is MapInto && name.name@ == "into"@ && args@.len() == 0
                ||| rewrites_method(env, rewrite, name.name@, args@, v)
            }),
            Kind::Call { func: _, args } => args@.len() == 1 && ({
                ||| rewrite is MapInto && hir.local(args@[0]) == Some(param) && (hir.resolves_item(
                    body,
                    Known::Into,
                ) || hir.resolves_item(body, Known::From))
                ||| rewrite is Identity && hir.resolves_item(body, Known::Clone) && hir.local(
                    manual_signal_combinator::unborrowed(hir, args@[0]),
                ) == Some(param)
            }),
            _ => body_value(hir, env, body, param, v) matches Some(value) && rewrites_to(
                env,
                rewrite,
                v,
                value,
            ),
        }
    }
}

/// The combinator that replaces a `map` closure holds, whatever the signal holds,
/// what the closure returns.
#[verifier::rlimit(40)]
pub proof fn combinators_keep_the_value(
    hir: Hir,
    env: Env,
    body: usize,
    param: usize,
    output: usize,
    v: Value,
)
    requires
        env.sound(hir),
        env.typed(hir, output),
        has_type(hir, output, v),
    ensures
        manual_signal_combinator::body_rewrite(hir, body, param, output) matches Some(rewrite)
            ==> rewrites_body(hir, env, body, param, rewrite, v),
{
    if manual_signal_combinator::body_rewrite(hir, body, param, output) is Some && hir.local(body)
        != Some(param) {
        let rewrite = manual_signal_combinator::body_rewrite(hir, body, param, output)->0;
        match hir.kind(body) {
            Kind::Unary { op, operand: _ } => {
                let c = if op == UnOp::Not {
                    Combinator::Not
                } else {
                    Combinator::Negate
                };
                let value = body_value(hir, env, body, param, v)->0;
                assert(restates_as(c, env, c.name(), seq![], false, v, value));
            },
            Kind::Binary { op, lhs: _, rhs } => {
                lemma_free_is_no_read(hir, rhs, param);
                assert(has_type(hir, output, (env.value)(rhs)));
                comparisons_keep_their_value(hir, env, op, rhs, param, output, v);
            },
            Kind::MethodCall { name, receiver: _, args } => {
                let own = hir.node(body).inherent->0;
                if args@.len() == 0 {
                    let m = lemma_nullary(hir, env, name.name@, own, output, args@, v);
                } else {
                    let m = lemma_unary(hir, env, name.name@, own, param, output, args@, v);
                }
            },
            Kind::If { cond: _, then, els: Some(els) } => {
                lemma_branches(hir, env, then, els, param, v);
            },
            _ => {},
        }
    }
}

proof fn lemma_branches(hir: Hir, env: Env, then: usize, els: usize, param: usize, v: Value)
    requires
        env.sound(hir),
        v is Bool,
    ensures
        manual_signal_combinator::if_rewrite(hir, then, els, param) matches Some(rewrite)
            ==> rewrites_to(
            env,
            rewrite,
            v,
            if v->Bool_0 {
                part(hir, env, then, param, v)
            } else {
                part(hir, env, els, param, v)
            },
        ),
{
    if let Some(manual_signal_combinator::RewriteView::Named { name, args, not }) =
        manual_signal_combinator::if_rewrite(hir, then, els, param) {
        let a = hir.evaluated(then);
        let b = hir.evaluated(els);
        let value = if v->Bool_0 {
            part(hir, env, then, param, v)
        } else {
            part(hir, env, els, param, v)
        };
        assert((env.value)(a) == (env.value)(then));
        assert((env.value)(b) == (env.value)(els));
        match hir.kind(a) {
            Kind::Call { func, args: operands } => {
                assert(names_variant(hir, func, Known::OptionSome)
                    == manual_signal_combinator::constructs(hir, func, Known::OptionSome));
            },
            _ => {},
        }
        assert(names_variant(hir, b, Known::OptionNone) == manual_signal_combinator::constructs(
            hir,
            b,
            Known::OptionNone,
        ));
        if args.len() == 2 {
            lemma_free_is_no_read(hir, a, param);
            lemma_free_is_no_read(hir, b, param);
            assert(restates_as(Combinator::Select, env, name, args, not, v, value));
        } else {
            assert(restates_as(Combinator::ThenSome, env, name, args, not, v, value));
        }
    }
}

/// The code is the call of the combinator on the receiver: its name, its operands
/// as they are written, in order, and `.not()` where the result is negated.
pub open spec fn spells(
    hir: Hir,
    receiver: usize,
    rewrite: manual_signal_combinator::RewriteView,
    code: Seq<char>,
) -> bool {
    match rewrite {
        manual_signal_combinator::RewriteView::Named { name, args, not } => {
            let call = hir.operand_or_dots(receiver) + "."@ + name + "("@ + (if args.len() == 0 {
                seq![]
            } else if args.len() == 1 {
                hir.source_or_dots(args[0])
            } else {
                hir.source_or_dots(args[0]) + ", "@ + hir.source_or_dots(args[1])
            }) + ")"@;
            code == (if not {
                call + ".not()"@
            } else {
                call
            }) && args.len() <= 2
        },
        manual_signal_combinator::RewriteView::Identity => code == hir.owned_or_dots(receiver),
        manual_signal_combinator::RewriteView::MapInto => {
            ||| code == hir.operand_or_dots(receiver) + ".map_into()"@
            ||| exists|t: usize| #[trigger]
                hir.ty(t).text@.len() >= 0 && code == hir.operand_or_dots(receiver)
                    + ".map_into::<"@ + hir.ty(t).text@ + ">()"@
        },
    }
}

proof fn lemma_spells(
    hir: Hir,
    n: usize,
    receiver: usize,
    rewrite: manual_signal_combinator::RewriteView,
)
    requires
        rewrite matches manual_signal_combinator::RewriteView::Named { name, args, not }
            ==> args.len() <= 2,
    ensures
        manual_signal_combinator::spelling(hir, n, receiver, rewrite) matches Some(spelled)
            ==> spells(hir, receiver, rewrite, spelled.0),
{
    reveal_strlit("");
    match rewrite {
        manual_signal_combinator::RewriteView::Named { name, args, not } => {
            let sources = manual_signal_combinator::arg_sources(hir, args, args.len() as int);
            let list = crate::text::joined(sources, ", "@);
            reveal_with_fuel(crate::text::joined, 3);
            if args.len() == 0 {
                assert(list =~= seq![]);
            } else if args.len() == 2 {
                assert(sources.drop_last().len() == 1);
                assert(sources.drop_last()[0] == sources[0]);
            }
            let call = hir.operand_or_dots(receiver) + "."@ + name + "("@ + list + ")"@;
            assert(call + ""@ =~= call);
        },
        manual_signal_combinator::RewriteView::Identity => {},
        manual_signal_combinator::RewriteView::MapInto => {
            if let Some(t) = manual_signal_combinator::conversion_target(hir, n) {
                assert(hir.ty(t).text@.len() >= 0);
            }
        },
    }
}

/// Where a `map` is reported, its replacement is a combinator on the same
/// receiver that holds what the closure returns, whatever the signal holds.
pub proof fn combinator_fixes_keep_the_value(
    hir: Hir,
    env: Env,
    n: usize,
    v: Value,
) -> (r: (manual_signal_combinator::RewriteView, usize, usize, usize))
    requires
        env.sound(hir),
        manual_signal_combinator::finding_at(hir, n) is Some,
    ensures
        ({
            let (rewrite, param, pat, body) = r;
            let finding = manual_signal_combinator::finding_at(hir, n)->0;
            &&& hir.resolves_item(n, Known::SignalMap)
            &&& hir.kind(n) matches Kind::MethodCall { name: _, receiver, args }
            &&& args@.len() == 1
            &&& manual_signal_combinator::plain_closure(hir, args@[0]) == Some((param, pat, body))
            &&& finding.remarks.len() == 1
            &&& finding.remarks[0] matches RemarkView::Suggestion {
                label: _,
                span,
                code,
                applicability: _,
            }
            &&& span == hir.node(n).span
            &&& spells(hir, hir.undropped(receiver), rewrite, code)
            &&& env.typed(hir, hir.node(pat).ty) && has_type(hir, hir.node(pat).ty, v)
                ==> rewrites_body(hir, env, hir.evaluated(body), param, rewrite, v)
        }),
{
    let (receiver, func) = manual_signal_combinator::one_arg_method(hir, n)->0;
    let (param, pat, body) = manual_signal_combinator::plain_closure(hir, func)->0;
    let output = hir.node(pat).ty;
    let rewrite = manual_signal_combinator::body_rewrite(
        hir,
        hir.evaluated(body),
        param,
        output,
    )->0;
    if env.typed(hir, output) && has_type(hir, output, v) {
        combinators_keep_the_value(hir, env, hir.evaluated(body), param, output, v);
    }
    lemma_spells(hir, n, hir.undropped(receiver), rewrite);
    (rewrite, param, pat, body)
}

/// A comparison of the parameter with a literal of the signal's own type that can
/// be stored, a negation and a plain read all have a combinator, and so has each
/// method without operands on an option, a result or a string.
pub proof fn combinators_are_found(hir: Hir, body: usize, param: usize, output: usize, m: Method)
    ensures
        hir.local(body) == Some(param) ==> manual_signal_combinator::body_rewrite(
            hir,
            body,
            param,
            output,
        ) is Some,
        hir.kind(body) matches Kind::Unary { op: UnOp::Not, operand } ==> (hir.local(operand)
            == Some(param) && hir.ty(output).kind is Bool ==> manual_signal_combinator::body_rewrite(
            hir,
            body,
            param,
            output,
        ) is Some),
        hir.kind(body) matches Kind::Binary { op, lhs, rhs } ==> (hir.local(lhs) == Some(param) && (
        op is Eq || op is Ne || op is Lt || op is Le || op is Gt || op is Ge)
            && manual_signal_combinator::stores(hir, rhs, param) && hir.node(rhs).ty == output
            && hir.ty(output).known_clone() ==> manual_signal_combinator::body_rewrite(
            hir,
            body,
            param,
            output,
        ) is Some),
        hir.kind(body) matches Kind::MethodCall { name, receiver, args } ==> (hir.local(receiver)
            == Some(param) && hir.node(body).callee is Some && args@.len() == 0 && name.name@
            == m.name() && (hir.node(body).inherent matches Some(own) && match m {
            Method::IsSome | Method::IsNone => hir.ty_is(own, Known::OptionTy) && hir.ty_is(
                output,
                Known::OptionTy,
            ),
            Method::IsOk | Method::IsErr | Method::TakeOk | Method::TakeErr => hir.ty_is(
                own,
                Known::ResultTy,
            ) && hir.ty_is(output, Known::ResultTy),
            Method::IsEmpty | Method::Len => hir.stringy(own) && hir.stringy(output),
            Method::Abs => own == output && hir.ty(output).kind is Int,
            _ => false,
        }) ==> manual_signal_combinator::body_rewrite(hir, body, param, output) is Some),
{
    reveal_strlit("clone");
    reveal_strlit("into");
    reveal_strlit("is_some");
    reveal_strlit("is_none");
    reveal_strlit("is_ok");
    reveal_strlit("is_err");
    reveal_strlit("is_empty");
    reveal_strlit("len");
    reveal_strlit("abs");
    reveal_strlit("unwrap_or_default");
    reveal_strlit("flatten");
    reveal_strlit("ok");
    reveal_strlit("err");
    let name = m.name();
    match m {
        Method::IsSome => {
            assert(name[3] == 's');
        },
        Method::IsNone => {
            assert(name[3] == 'n' && "is_some"@[3] == 's');
        },
        Method::IsOk => {
            assert(name.len() == 5);
        },
        Method::IsErr => {
            assert(name.len() == 6);
        },
        Method::IsEmpty => {
            assert(name.len() == 8);
        },
        Method::Len => {
            assert(name[0] == 'l');
        },
        Method::Abs => {
            assert(name[0] == 'a' && "len"@[0] == 'l');
        },
        Method::TakeOk => {
            assert(name.len() == 2);
        },
        Method::TakeErr => {
            assert(name[0] == 'e' && "len"@[0] == 'l' && "abs"@[0] == 'a');
        },
        _ => {},
    }
}

} // verus!
