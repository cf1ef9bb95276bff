//! `literal_color_components`: a color built from numeric-literal components,
//! which a hex literal spells the way designers and tools do.

use crate::color;
use crate::color::Defs;
use crate::diagnostics;
use crate::diagnostics::{Applicability, Diagnostic, DiagnosticView, RemarkView};
use crate::hir;
use crate::hir::{FloatValue, Hir, Kind, Lit, Span, TyKind, UnOp};
use crate::known::Known;
use crate::lint::Lint;
use crate::text;
use vstd::arithmetic::div_mod::*;
use vstd::arithmetic::power2::*;
use vstd::bits::*;
use vstd::prelude::*;

verus! {

/// How a flagged constructor's components are written.
#[derive(Clone, Copy, Debug, PartialEq, Eq, Structural)]
pub enum Encoding {
    /// `(f32, f32, f32)`: `Srgb::new`, `Color::srgb_f32`.
    F32,
    /// `(u8, u8, u8)`: `Srgb::new_u8`, `Color::srgb`.
    U8,
    /// A packed `0xRRGGBB` `u32`: `Srgb::from_u32`, `Color::srgb_u32`.
    U32,
}

/// A component expression's evaluated value.
#[derive(Clone, Copy, Debug, PartialEq, Eq, Structural)]
pub enum Num {
    /// An integer's (or char's or bool's) bit pattern at its type: the type
    /// carries the width and signedness that interpret it.
    Int(u128, usize),
    Float(FloatValue),
}

/// The bit width of an integer type.
pub open spec fn width(hir: Hir, t: usize, pointer_bits: u64) -> Option<nat> {
    let bits = match hir.ty(t).kind {
        TyKind::Int { bits: Some(bits) } => bits as nat,
        TyKind::Int { bits: None } => pointer_bits as nat,
        TyKind::Uint { bits: Some(bits) } => bits as nat,
        TyKind::Uint { bits: None } => pointer_bits as nat,
        _ => 0,
    };
    if 1 <= bits <= 128 {
        Some(bits)
    } else {
        None
    }
}

/// The bit width of an integer type: the pointer types' width comes from the
/// data layout.
pub fn int_bits(hir: &Hir, t: usize, pointer_bits: u64) -> (r: Option<u64>)
    requires
        t < hir.types.len(),
    ensures
        match r {
            Some(w) => width(*hir, t, pointer_bits) == Some(w as nat) && 1 <= w <= 128,
            None => width(*hir, t, pointer_bits) is None,
        },
{
    let bits: u64 = match &hir.types[t].kind {
        TyKind::Int { bits: Some(bits) } | TyKind::Uint { bits: Some(bits) } => *bits as u64,
        TyKind::Int { bits: None } | TyKind::Uint { bits: None } => pointer_bits,
        _ => 0,
    };
    if 1 <= bits && bits <= 128 {
        Some(bits)
    } else {
        None
    }
}

/// The mask of a `w`-bit value: `w` ones.
pub fn mask(w: u64) -> (r: u128)
    requires
        1 <= w <= 128,
    ensures
        r == pow2(w as nat) - 1,
{
    let shift: u128 = 128 - w as u128;
    proof {
        let a = pow2(w as nat);
        let b = pow2(shift as nat);
        lemma_u128_shr_is_div(u128::MAX, shift);
        lemma_pow2_adds(w as nat, shift as nat);
        lemma_pow2_pos(w as nat);
        lemma_pow2_pos(shift as nat);
        lemma_pow2_adds(64, 64);
        lemma2_to64();
        assert(pow2(128) == u128::MAX + 1);
        assert(a * b == u128::MAX + 1);
        assert((a * b - 1) / b as int == a - 1) by (nonlinear_arith)
            requires
                a > 0,
                b > 0,
        ;
    }
    u128::MAX >> shift
}

/// The low `w` bits of `v`.
pub open spec fn low_bits(v: int, w: nat) -> int {
    v % (pow2(w) as int)
}

/// The low `w` bits of `v`.
pub fn truncate(v: u128, w: u64) -> (r: u128)
    requires
        1 <= w <= 128,
    ensures
        r == low_bits(v as int, w as nat),
{
    let top: u128 = mask(w);
    proof {
        lemma_pow2_pos(w as nat);
    }
    if v <= top {
        proof {
            lemma_small_mod(v as nat, pow2(w as nat));
        }
        v
    } else {
        v % (top + 1)
    }
}

/// What the low `w` bits of `v` stand for in two's complement.
pub open spec fn signed_value(v: int, w: nat) -> int {
    let m = low_bits(v, w);
    if 2 * m < pow2(w) {
        m
    } else {
        m - pow2(w)
    }
}

/// `v` sign-extended from `w` bits to `i128`.
pub fn sext(v: u128, w: u64) -> (r: i128)
    requires
        1 <= w <= 128,
    ensures
        r == signed_value(v as int, w as nat),
{
    let top: u128 = mask(w);
    let m: u128 = truncate(v, w);
    proof {
        lemma_pow2_pos(w as nat);
        lemma_pow2_unfold(w as nat);
        lemma_mod_bound(v as int, pow2(w as nat) as int);
    }
    if m <= top / 2 {
        m as i128
    } else {
        -((top - m) as i128) - 1
    }
}

/// The low `w` bits of an `i128`.
fn truncate_signed(v: i128, w: u64) -> (r: u128)
    requires
        1 <= w <= 128,
    ensures
        r == low_bits(v as int, w as nat),
{
    if v >= 0 {
        truncate(v as u128, w)
    } else {
        let below: u128 = (-(v + 1)) as u128;
        let top: u128 = mask(w);
        let m: u128 = truncate(below, w);
        proof {
            let p = pow2(w as nat) as int;
            lemma_pow2_pos(w as nat);
            lemma_mod_bound(below as int, p);
            lemma_fundamental_div_mod(below as int, p);
            let q = below as int / p;
            assert(v as int == p * (-q - 1) + (p - 1 - m)) by (nonlinear_arith)
                requires
                    v as int == -(below as int) - 1,
                    below as int == p * q + m,
            ;
            lemma_fundamental_div_mod_converse(v as int, p, -q - 1, p - 1 - m);
        }
        top - m
    }
}

/// Sign extension keeps the low bits and gives a number within the range of
/// `w`-bit signed integers.
pub proof fn sign_extension_keeps_the_bits(v: int, w: nat)
    requires
        1 <= w,
    ensures
        low_bits(signed_value(v, w), w) == low_bits(v, w),
        -pow2((w - 1) as nat) <= signed_value(v, w) < pow2((w - 1) as nat),
{
    let p = pow2(w) as int;
    let m = low_bits(v, w);
    lemma_pow2_pos(w);
    lemma_pow2_unfold(w);
    lemma_mod_bound(v, p);
    if 2 * m < p {
        lemma_small_mod(m as nat, pow2(w));
    } else {
        lemma_fundamental_div_mod_converse(m - p, p, -1, m);
    }
}

/// A number within the range of `w`-bit signed integers is what its low bits
/// stand for, so a cast there and back gives it again.
pub proof fn signed_numbers_read_back(n: int, w: nat)
    requires
        1 <= w,
        -pow2((w - 1) as nat) <= n < pow2((w - 1) as nat),
    ensures
        signed_value(low_bits(n, w), w) == n,
{
    let p = pow2(w) as int;
    lemma_pow2_pos(w);
    lemma_pow2_unfold(w);
    if n >= 0 {
        lemma_small_mod(n as nat, pow2(w));
    } else {
        lemma_fundamental_div_mod_converse(n, p, -1, n + p);
        lemma_small_mod((n + p) as nat, pow2(w));
    }
}

/// `n` for an `n` within the range of `w`-bit signed integers, the nearest end
/// of the range for one outside.
pub open spec fn clamp_signed(n: int, w: nat) -> int {
    let half = pow2((w - 1) as nat) as int;
    if n < -half {
        -half
    } else if n >= half {
        half - 1
    } else {
        n
    }
}

/// The float as a `w`-bit signed integer's bit pattern: `as` saturates
/// out-of-range values, truncates toward zero, and maps NaN to zero.
pub fn sat_signed(f: FloatValue, w: u64) -> (r: u128)
    requires
        1 <= w <= 128,
    ensures
        r == low_bits(clamp_signed(f.signed as int, w as nat), w as nat),
{
    let top: u128 = mask(w);
    proof {
        lemma_pow2_unfold(w as nat);
        lemma_pow2_pos((w - 1) as nat);
    }
    let max: i128 = (top / 2) as i128;
    let min: i128 = -max - 1;
    let clamped: i128 = if f.signed < min {
        min
    } else if f.signed > max {
        max
    } else {
        f.signed
    };
    truncate_signed(clamped, w)
}

/// The float as a `w`-bit unsigned integer.
pub open spec fn clamp_unsigned(n: int, w: nat) -> int {
    if n >= pow2(w) {
        pow2(w) - 1
    } else {
        n
    }
}

/// The float as a `w`-bit unsigned integer: the same `as` semantics.
pub fn sat_unsigned(f: FloatValue, w: u64) -> (r: u128)
    requires
        1 <= w <= 128,
    ensures
        r == clamp_unsigned(f.unsigned as int, w as nat),
{
    let top: u128 = mask(w);
    if f.unsigned > top {
        top
    } else {
        f.unsigned
    }
}

/// The number that a bit pattern at a type stands for.
pub open spec fn int_value(hir: Hir, v: u128, t: usize, pointer_bits: u64) -> Option<int> {
    match hir.ty(t).kind {
        TyKind::Int { .. } => match width(hir, t, pointer_bits) {
            Some(w) => Some(signed_value(v as int, w)),
            None => None,
        },
        TyKind::Uint { .. } => Some(v as int),
        TyKind::Bool => Some(v as int),
        TyKind::Char => Some(v as int),
        _ => None,
    }
}

/// The value as a constant of the `w`-bit integer type `to`.
pub open spec fn cast_bits(
    hir: Hir,
    v: Num,
    to: usize,
    w: nat,
    signed: bool,
    pointer_bits: u64,
) -> Option<int> {
    match v {
        Num::Int(bits, from) => match int_value(hir, bits, from, pointer_bits) {
            Some(n) => Some(low_bits(n, w)),
            None => None,
        },
        Num::Float(f) => Some(
            if signed {
                low_bits(clamp_signed(f.signed as int, w), w)
            } else {
                clamp_unsigned(f.unsigned as int, w)
            },
        ),
    }
}

/// The value `v as to` in const evaluation; `float` is what it is where `to` is
/// a float type.
pub open spec fn cast_value(
    hir: Hir,
    v: Num,
    to: usize,
    float: Option<FloatValue>,
    pointer_bits: u64,
) -> Option<Num> {
    match hir.ty(to).kind {
        TyKind::Float { .. } => match float {
            Some(f) => Some(Num::Float(f)),
            None => None,
        },
        TyKind::Int { .. } => match width(hir, to, pointer_bits) {
            Some(w) => match cast_bits(hir, v, to, w, true, pointer_bits) {
                Some(bits) => Some(Num::Int(bits as u128, to)),
                None => None,
            },
            None => None,
        },
        TyKind::Uint { .. } => match width(hir, to, pointer_bits) {
            Some(w) => match cast_bits(hir, v, to, w, false, pointer_bits) {
                Some(bits) => Some(Num::Int(bits as u128, to)),
                None => None,
            },
            None => None,
        },
        _ => None,
    }
}

fn cast_int(hir: &Hir, v: u128, from: usize, w: u64, pointer_bits: u64) -> (r: Option<u128>)
    requires
        from < hir.types.len(),
        1 <= w <= 128,
    ensures
        match r {
            Some(bits) => int_value(*hir, v, from, pointer_bits) is Some && bits == low_bits(
                int_value(*hir, v, from, pointer_bits)->0,
                w as nat,
            ),
            None => int_value(*hir, v, from, pointer_bits) is None,
        },
{
    match &hir.types[from].kind {
        TyKind::Int { .. } => match int_bits(hir, from, pointer_bits) {
            Some(own) => Some(truncate_signed(sext(v, own), w)),
            None => None,
        },
        TyKind::Uint { .. } | TyKind::Bool | TyKind::Char => Some(truncate(v, w)),
        _ => None,
    }
}

/// The value `v as to`, as const evaluation casts: int-to-int truncates the bit
/// pattern (sign-extending a signed source first), float-to-int saturates,
/// anything-to-float converts, which `float` holds the result of.
pub fn cast(hir: &Hir, v: Num, to: usize, float: Option<FloatValue>, pointer_bits: u64) -> (r:
    Option<Num>)
    requires
        to < hir.types.len(),
        v matches Num::Int(_, from) ==> from < hir.types.len(),
    ensures
        r == cast_value(*hir, v, to, float, pointer_bits),
{
    let signed: bool = match &hir.types[to].kind {
        TyKind::Float { .. } => {
            return match float {
                Some(f) => Some(Num::Float(f)),
                None => None,
            };
        },
        TyKind::Int { .. } => true,
        TyKind::Uint { .. } => false,
        _ => {
            return None;
        },
    };
    let w: u64 = match int_bits(hir, to, pointer_bits) {
        Some(w) => w,
        None => {
            return None;
        },
    };
    let bits: u128 = match v {
        Num::Int(bits, from) => match cast_int(hir, bits, from, w, pointer_bits) {
            Some(bits) => bits,
            None => {
                return None;
            },
        },
        Num::Float(f) => if signed {
            sat_signed(f, w)
        } else {
            sat_unsigned(f, w)
        },
    };
    Some(Num::Int(bits, to))
}

/// The value `-v` in const evaluation.
pub open spec fn negated(
    hir: Hir,
    v: Num,
    float: Option<FloatValue>,
    pointer_bits: u64,
) -> Option<Num> {
    match v {
        Num::Float(_) => match float {
            Some(f) => Some(Num::Float(f)),
            None => None,
        },
        Num::Int(bits, t) => match (hir.ty(t).kind, width(hir, t, pointer_bits)) {
            (TyKind::Int { .. }, Some(w)) => Some(
                Num::Int(low_bits(-signed_value(bits as int, w), w) as u128, t),
            ),
            _ => None,
        },
    }
}

/// The value `-v`, as const evaluation computes it: a float negates, which
/// `float` holds the result of, a signed integer two's-complements at its width.
pub fn negate(hir: &Hir, v: Num, float: Option<FloatValue>, pointer_bits: u64) -> (r: Option<Num>)
    requires
        v matches Num::Int(_, t) ==> t < hir.types.len(),
    ensures
        r == negated(*hir, v, float, pointer_bits),
{
    match v {
        Num::Float(_) => match float {
            Some(f) => Some(Num::Float(f)),
            None => None,
        },
        Num::Int(bits, t) => match &hir.types[t].kind {
            TyKind::Int { .. } => match int_bits(hir, t, pointer_bits) {
                Some(w) => {
                    let n: i128 = sext(bits, w);
                    let below: u128 = truncate_signed(-1 - n, w);
                    let top: u128 = mask(w);
                    proof {
                        let p = pow2(w as nat) as int;
                        lemma_pow2_pos(w as nat);
                        lemma_mod_bound(-1 - n, p);
                        lemma_fundamental_div_mod(-1 - n, p);
                        let q = (-1 - n) / p;
                        if below == top {
                            assert(-n == p * (q + 1) + 0) by (nonlinear_arith)
                                requires
                                    -1 - n == p * q + below,
                                    below == p - 1,
                            ;
                            lemma_fundamental_div_mod_converse(-n, p, q + 1, 0);
                        } else {
                            assert(-n == p * q + (below + 1)) by (nonlinear_arith)
                                requires
                                    -1 - n == p * q + below,
                            ;
                            lemma_fundamental_div_mod_converse(-n, p, q, below + 1);
                        }
                    }
                    Some(
                        Num::Int(
                            if below == top {
                                0
                            } else {
                                below + 1
                            },
                            t,
                        ),
                    )
                },
                None => None,
            },
            _ => None,
        },
    }
}

/// A literal's own value.
pub open spec fn literal_value(hir: Hir, n: usize) -> Option<Num> {
    let t = hir.node(n).ty;
    match hir.kind(n) {
        Kind::Lit { lit } => match lit {
            Lit::Int { value, suffixed: _ } => Some(Num::Int(value, t)),
            Lit::Byte(b) => Some(Num::Int(b as u128, t)),
            Lit::Char(c) => Some(Num::Int(c as u128, t)),
            Lit::Bool(b) => Some(
                Num::Int(
                    if b {
                        1
                    } else {
                        0
                    },
                    t,
                ),
            ),
            Lit::Float { .. } => match hir.node(n).float {
                Some(f) => Some(Num::Float(f)),
                None => None,
            },
            _ => None,
        },
        _ => None,
    }
}

/// The literal's own value, evaluated in place.
pub fn lit_num(hir: &Hir, n: usize) -> (r: Option<Num>)
    requires
        hir.has(n),
    ensures
        r == literal_value(*hir, n),
{
    let t: usize = hir.nodes[n].ty;
    match &hir.nodes[n].kind {
        Kind::Lit { lit } => match lit {
            Lit::Int { value, .. } => Some(Num::Int(*value, t)),
            Lit::Byte(b) => Some(Num::Int(*b as u128, t)),
            Lit::Char(c) => Some(Num::Int(*c as u128, t)),
            Lit::Bool(b) => Some(
                Num::Int(
                    if *b {
                        1
                    } else {
                        0
                    },
                    t,
                ),
            ),
            Lit::Float { .. } => match hir.nodes[n].float {
                Some(f) => Some(Num::Float(f)),
                None => None,
            },
            _ => None,
        },
        _ => None,
    }
}

/// The literal that an expression reduces to, and its value.
pub open spec fn value_of(hir: Hir, n: usize, pointer_bits: u64) -> Option<(usize, Num)>
    decreases n,
{
    match hir.kind(n) {
        Kind::DropTemps { inner } => if inner < n {
            value_of(hir, inner, pointer_bits)
        } else {
            None
        },
        Kind::Cast { operand } => if operand < n {
            match value_of(hir, operand, pointer_bits) {
                Some((lit, v)) => match cast_value(
                    hir,
                    v,
                    hir.node(n).ty,
                    hir.node(n).float,
                    pointer_bits,
                ) {
                    Some(v) => Some((lit, v)),
                    None => None,
                },
                None => None,
            }
        } else {
            None
        },
        Kind::Unary { op, operand } => if op is Neg && operand < n {
            match value_of(hir, operand, pointer_bits) {
                Some((lit, v)) => match negated(hir, v, hir.node(n).float, pointer_bits) {
                    Some(v) => Some((lit, v)),
                    None => None,
                },
                None => None,
            }
        } else {
            None
        },
        _ => match literal_value(hir, n) {
            Some(v) => Some((n, v)),
            None => None,
        },
    }
}

/// The literal the expression reduces to and the value const evaluation gives
/// it: drop-temps, `as` casts, and unary minus are applied to the inner
/// literal's value, so a `300u16 as u8` component is `44` and `-1i8 as u8` is
/// `255`. Anything else (a `const` name, a call, a field, a binary operation) is
/// not a literal and stays silent. The returned expression is the literal
/// itself; its source carries the written base (`0x` or decimal) for the packed
/// `u32` rows.
pub fn eval(hir: &Hir, n: usize, pointer_bits: u64) -> (r: Option<(usize, Num)>)
    requires
        hir.wf(),
        hir.has(n),
    ensures
        r == value_of(*hir, n, pointer_bits),
        r matches Some((lit, v)) ==> lit <= n && (v matches Num::Int(_, t) ==> t
            < hir.types.len()),
    decreases n,
{
    proof {
        assert(hir.node_wf(n));
    }
    match &hir.nodes[n].kind {
        Kind::DropTemps { inner } => eval(hir, *inner, pointer_bits),
        Kind::Cast { operand } => match eval(hir, *operand, pointer_bits) {
            Some((lit, v)) => match cast(
                hir,
                v,
                hir.nodes[n].ty,
                hir.nodes[n].float,
                pointer_bits,
            ) {
                Some(v) => Some((lit, v)),
                None => None,
            },
            None => None,
        },
        Kind::Unary { op, operand } => {
            if *op != UnOp::Neg {
                return None;
            }
            match eval(hir, *operand, pointer_bits) {
                Some((lit, v)) => match negate(hir, v, hir.nodes[n].float, pointer_bits) {
                    Some(v) => Some((lit, v)),
                    None => None,
                },
                None => None,
            }
        },
        _ => match lit_num(hir, n) {
            Some(v) => Some((n, v)),
            None => None,
        },
    }
}

/// The float that a float-kind component literal holds.
pub open spec fn float_component(hir: Hir, n: usize, pointer_bits: u64) -> Option<FloatValue> {
    match value_of(hir, n, pointer_bits) {
        Some((_, Num::Float(f))) => Some(f),
        _ => None,
    }
}

/// The float that a float-kind component literal holds; an integer cannot stand
/// where an `f32` is taken.
pub fn float(hir: &Hir, n: usize, pointer_bits: u64) -> (r: Option<FloatValue>)
    requires
        hir.wf(),
        hir.has(n),
    ensures
        r == float_component(*hir, n, pointer_bits),
{
    match eval(hir, n, pointer_bits) {
        Some((_, Num::Float(f))) => Some(f),
        _ => None,
    }
}

/// The byte that an int-kind component literal holds.
pub open spec fn byte_component(hir: Hir, n: usize, pointer_bits: u64) -> Option<u8> {
    match value_of(hir, n, pointer_bits) {
        Some((_, Num::Int(v, _))) => if v <= 255 {
            Some(v as u8)
        } else {
            None
        },
        _ => None,
    }
}

/// The `u8` an int-kind component literal holds: const evaluation has already
/// applied the casts' truncation, so `300u16 as u8` arrives as `44`.
pub fn int_u8(hir: &Hir, n: usize, pointer_bits: u64) -> (r: Option<u8>)
    requires
        hir.wf(),
        hir.has(n),
    ensures
        r == byte_component(*hir, n, pointer_bits),
{
    match eval(hir, n, pointer_bits) {
        Some((_, Num::Int(v, _))) => if v <= 255 {
            Some(v as u8)
        } else {
            None
        },
        _ => None,
    }
}

/// The source starts with the prefix.
pub open spec fn begins(source: Seq<char>, prefix: Seq<char>) -> bool {
    prefix.is_prefix_of(source)
}

/// The literal was written without a base prefix.
pub open spec fn written_decimal(hir: Hir, lit: usize) -> bool {
    match hir.node(lit).snippet {
        Some(source) => !(begins(source@, "0x"@) || begins(source@, "0o"@) || begins(
            source@,
            "0b"@,
        )),
        None => false,
    }
}

proof fn lemma_begins(source: Seq<char>, prefix: Seq<char>)
    requires
        prefix.len() == 2,
    ensures
        begins(source, prefix) == (source.len() >= 2 && source[0] == prefix[0] && source[1]
            == prefix[1]),
{
    if source.len() >= 2 {
        let head = source.subrange(0, 2);
        if head[0] == prefix[0] && head[1] == prefix[1] {
            assert(prefix =~= head);
        }
    }
}

/// Whether the literal was written decimal: a `0x`, `0o` or `0b` packed value is
/// already readable and stays silent.
pub fn decimal(hir: &Hir, lit: usize) -> (r: bool)
    requires
        hir.has(lit),
    ensures
        r == written_decimal(*hir, lit),
{
    match &hir.nodes[lit].snippet {
        Some(source) => {
            let cs: Vec<char> = text::chars(source.as_str());
            proof {
                reveal_strlit("0x");
                reveal_strlit("0o");
                reveal_strlit("0b");
            }
            let based: bool = cs.len() >= 2 && cs[0] == '0' && (cs[1] == 'x' || cs[1] == 'o'
                || cs[1] == 'b');
            proof {
                lemma_begins(cs@, "0x"@);
                lemma_begins(cs@, "0o"@);
                lemma_begins(cs@, "0b"@);
            }
            !based
        },
        None => false,
    }
}

/// `n` doubled `k` times.
pub open spec fn doubled(n: int, k: int) -> int
    decreases k,
{
    if k <= 0 {
        n
    } else {
        2 * doubled(n, k - 1)
    }
}

/// How often `n` must be doubled, from `k` times on, to reach 255.
pub open spec fn scale(n: int, k: int) -> int
    decreases 8 - k,
{
    if k >= 8 || doubled(n, k) >= 255 {
        k
    } else {
        scale(n, k + 1)
    }
}

/// The significand of `n / 255` as an `f32`: 24 bits, rounded to the nearest.
pub open spec fn significand(n: int) -> int {
    (2 * doubled(n, scale(n, 0)) * 0x80_0000 + 255) / 510
}

/// The bit pattern of `n / 255` as an `f32`.
pub open spec fn unit_bits(n: int) -> int {
    if n == 0 {
        0
    } else {
        (127 - scale(n, 0)) * 0x80_0000 + significand(n) - 0x80_0000
    }
}

proof fn lemma_scale(n: int, k: int)
    requires
        1 <= n <= 255,
        0 <= k <= 8,
        k > 0 ==> doubled(n, k - 1) < 255,
    ensures
        k <= scale(n, k) <= 8,
        255 <= doubled(n, scale(n, k)) <= 509,
    decreases 8 - k,
{
    if k == 8 {
        reveal_with_fuel(doubled, 9);
    } else if doubled(n, k) < 255 {
        lemma_scale(n, k + 1);
    }
}

/// The bit pattern stands for the `f32` nearest to `n / 255`: with `k` such that
/// `n / 255` lies between `1 / 2^k` and twice that, it is `m / 2^(23 + k)` for
/// the 24-bit integer `m` nearest to `n / 255 * 2^(23 + k)`.
pub proof fn unit_bits_are_nearest(n: int)
    requires
        1 <= n <= 255,
    ensures
        0 <= scale(n, 0) <= 8,
        255 <= doubled(n, scale(n, 0)) < 510,
        0x80_0000 <= significand(n) < 0x100_0000,
        -255 <= 510 * significand(n) - 2 * doubled(n, scale(n, 0)) * 0x80_0000 <= 255,
{
    lemma_scale(n, 0);
}

proof fn lemma_doubled_order(a: int, b: int, k: int)
    requires
        a < b,
    ensures
        doubled(a, k) < doubled(b, k),
    decreases k,
{
    if k > 0 {
        lemma_doubled_order(a, b, k - 1);
    }
}

proof fn lemma_scale_order(a: int, b: int, k: int)
    requires
        a < b,
    ensures
        k <= scale(b, k) <= scale(a, k) || k > 8,
    decreases 8 - k,
{
    lemma_doubled_order(a, b, k);
    if k < 8 && doubled(b, k) < 255 {
        lemma_scale_order(a, b, k + 1);
    } else if k < 8 && doubled(a, k) < 255 {
        lemma_scale_order(a, b, k + 1);
    }
}

/// The bit patterns of bytes are ordered as the bytes are.
pub proof fn unit_bits_keep_the_order(a: int, b: int)
    requires
        0 <= a < b <= 255,
    ensures
        0 <= unit_bits(a) < unit_bits(b) <= u32::MAX,
{
    unit_bits_are_nearest(b);
    if a > 0 {
        unit_bits_are_nearest(a);
        lemma_scale_order(a, b, 0);
        lemma_doubled_order(a, b, scale(a, 0));
    }
}

/// Distinct colors have distinct keys, so only spellings of one color are
/// counted together.
pub proof fn distinct_colors_have_distinct_keys(a: [u8; 3], b: [u8; 3])
    requires
        a@ != b@,
    ensures
        key_of(a) != key_of(b),
{
    if forall|i: int| 0 <= i < 3 ==> a@[i] == b@[i] {
        assert(a@ =~= b@);
    }
    let i = choose|i: int| 0 <= i < 3 && a@[i] != b@[i];
    if a@[i] < b@[i] {
        unit_bits_keep_the_order(a@[i] as int, b@[i] as int);
    } else {
        unit_bits_keep_the_order(b@[i] as int, a@[i] as int);
    }
    assert(key_of(a)[i] != key_of(b)[i]);
}

/// The bit pattern of `n / 255` as an `f32`.
fn to_unit_bits(n: u8) -> (r: u32)
    ensures
        r == unit_bits(n as int),
{
    if n == 0 {
        return 0;
    }
    let mut k: u64 = 0;
    let mut x: u64 = n as u64;
    proof {
        lemma_scale(n as int, 0);
    }
    while k < 8 && x < 255
        invariant
            k <= 8,
            1 <= n,
            x == doubled(n as int, k as int),
            x <= 509,
            scale(n as int, 0) == scale(n as int, k as int),
        decreases 8 - k,
    {
        x = 2 * x;
        k = k + 1;
    }
    proof {
        unit_bits_are_nearest(n as int);
    }
    let m: u64 = (2 * x * 0x80_0000 + 255) / 510;
    ((127 - k) * 0x80_0000 + m - 0x80_0000) as u32
}

/// The bit patterns of the components.
pub open spec fn key_of(rgb: [u8; 3]) -> Seq<u32> {
    rgb@.map_values(|n: u8| unit_bits(n as int) as u32)
}

/// The stored components' `f32` bit patterns of a `u8` triple: `new_u8` and
/// `from_u32` store `n as f32 / 255`, so this key equals the one `Srgb::new`
/// produces for the same color.
pub fn u8_key(rgb: [u8; 3]) -> (r: [u32; 3])
    ensures
        r@ == key_of(rgb),
{
    let key: [u32; 3] = [to_unit_bits(rgb[0]), to_unit_bits(rgb[1]), to_unit_bits(rgb[2])];
    proof {
        assert(key@ =~= key_of(rgb));
    }
    key
}

/// A call's literal components: the bit patterns that are stored, the bytes they
/// round to, and whether those store the same.
#[derive(Clone, Copy, Debug)]
pub struct Components {
    pub key: [u32; 3],
    pub rgb: [u8; 3],
    pub exact: bool,
}

pub ghost struct ComponentsView {
    pub key: Seq<u32>,
    pub rgb: Seq<u8>,
    pub exact: bool,
}

impl View for Components {
    type V = ComponentsView;

    open spec fn view(&self) -> ComponentsView {
        ComponentsView { key: self.key@, rgb: self.rgb@, exact: self.exact }
    }
}

/// What a triple of bytes holds.
pub open spec fn byte_components(r: u8, g: u8, b: u8) -> ComponentsView {
    ComponentsView {
        key: seq![
            unit_bits(r as int) as u32,
            unit_bits(g as int) as u32,
            unit_bits(b as int) as u32,
        ],
        rgb: seq![r, g, b],
        exact: true,
    }
}

/// The call's literal components.
pub open spec fn components_of(
    hir: Hir,
    encoding: Encoding,
    args: Seq<usize>,
    pointer_bits: u64,
) -> Option<ComponentsView> {
    match encoding {
        Encoding::F32 => if args.len() != 3 {
            None
        } else {
            match (
                float_component(hir, args[0], pointer_bits),
                float_component(hir, args[1], pointer_bits),
                float_component(hir, args[2], pointer_bits),
            ) {
                (Some(r), Some(g), Some(b)) => Some(
                    ComponentsView {
                        key: seq![r.bits, g.bits, b.bits],
                        rgb: seq![r.byte, g.byte, b.byte],
                        exact: r.on_grid && g.on_grid && b.on_grid,
                    },
                ),
                _ => None,
            }
        },
        Encoding::U8 => if args.len() != 3 {
            None
        } else {
            match (
                byte_component(hir, args[0], pointer_bits),
                byte_component(hir, args[1], pointer_bits),
                byte_component(hir, args[2], pointer_bits),
            ) {
                (Some(r), Some(g), Some(b)) => Some(byte_components(r, g, b)),
                _ => None,
            }
        },
        Encoding::U32 => if args.len() != 1 {
            None
        } else {
            match value_of(hir, args[0], pointer_bits) {
                Some((lit, Num::Int(v, _))) => if written_decimal(hir, lit) && v <= u32::MAX {
                    Some(
                        byte_components(
                            ((v / 0x1_0000) % 0x100) as u8,
                            ((v / 0x100) % 0x100) as u8,
                            (v % 0x100) as u8,
                        ),
                    )
                } else {
                    None
                },
                _ => None,
            }
        },
    }
}

/// What optional components hold.
pub open spec fn components_opt(components: Option<Components>) -> Option<ComponentsView> {
    match components {
        Some(components) => Some(components@),
        None => None,
    }
}

fn from_bytes(r: u8, g: u8, b: u8) -> (c: Components)
    ensures
        c@ == byte_components(r, g, b),
{
    let rgb: [u8; 3] = [r, g, b];
    let c: Components = Components { key: u8_key(rgb), rgb, exact: true };
    proof {
        assert(c@.rgb =~= seq![r, g, b]);
        assert(c@.key =~= byte_components(r, g, b).key);
    }
    c
}

/// The call's literal components. The key is the stored components' `f32` bit
/// patterns, so two spellings of the same color count together while distinct
/// colors that merely round to the same hex do not. Nothing as soon as one
/// component is a variable, field, call, or any other non-literal expression.
pub fn components(hir: &Hir, encoding: Encoding, args: &Vec<usize>, pointer_bits: u64) -> (r:
    Option<Components>)
    requires
        hir.wf(),
        hir::all_below(args@, hir.nodes@.len() as int),
    ensures
        components_opt(r) == components_of(*hir, encoding, args@, pointer_bits),
{
    match encoding {
        Encoding::F32 => {
            if args.len() != 3 {
                return None;
            }
            match (
                float(hir, args[0], pointer_bits),
                float(hir, args[1], pointer_bits),
                float(hir, args[2], pointer_bits),
            ) {
                (Some(r), Some(g), Some(b)) => {
                    let c: Components = Components {
                        key: [r.bits, g.bits, b.bits],
                        rgb: [r.byte, g.byte, b.byte],
                        exact: r.on_grid && g.on_grid && b.on_grid,
                    };
                    proof {
                        assert(c@.key =~= seq![r.bits, g.bits, b.bits]);
                        assert(c@.rgb =~= seq![r.byte, g.byte, b.byte]);
                    }
                    Some(c)
                },
                _ => None,
            }
        },
        Encoding::U8 => {
            if args.len() != 3 {
                return None;
            }
            match (
                int_u8(hir, args[0], pointer_bits),
                int_u8(hir, args[1], pointer_bits),
                int_u8(hir, args[2], pointer_bits),
            ) {
                (Some(r), Some(g), Some(b)) => Some(from_bytes(r, g, b)),
                _ => None,
            }
        },
        Encoding::U32 => {
            if args.len() != 1 {
                return None;
            }
            match eval(hir, args[0], pointer_bits) {
                Some((lit, Num::Int(v, _))) => if decimal(hir, lit) && v <= u32::MAX as u128 {
                    Some(
                        from_bytes(
                            ((v / 0x1_0000) % 0x100) as u8,
                            ((v / 0x100) % 0x100) as u8,
                            (v % 0x100) as u8,
                        ),
                    )
                } else {
                    None
                },
                _ => None,
            }
        },
    }
}

/// The place of the final segment of a path.
pub open spec fn final_segment(hir: Hir, func: usize) -> Option<Span> {
    match hir.kind(func) {
        Kind::Path { plain: _, segments, res: _ } => if segments@.len() > 0 {
            Some(segments@.last().span)
        } else {
            None
        },
        _ => None,
    }
}

/// The callee path's final segment, `new` in `Srgb::new(..)`, whatever qualifier
/// the source wrote.
pub fn last_segment(hir: &Hir, func: usize) -> (r: Option<Span>)
    requires
        hir.has(func),
    ensures
        r == final_segment(*hir, func),
{
    match &hir.nodes[func].kind {
        Kind::Path { segments, .. } => if segments.len() > 0 {
            Some(segments[segments.len() - 1].span)
        } else {
            None
        },
        _ => None,
    }
}

/// A digit in hex.
pub open spec fn hex_digit(d: int) -> char {
    if d < 10 {
        ('0' as int + d) as char
    } else {
        ('A' as int + d - 10) as char
    }
}

/// A byte as two digits in hex.
pub open spec fn hex_byte(n: u8) -> Seq<char> {
    seq![hex_digit(n as int / 16), hex_digit(n as int % 16)]
}

/// A color as `#RRGGBB`.
pub open spec fn hex_color(rgb: Seq<u8>) -> Seq<char> {
    "#"@ + hex_byte(rgb[0]) + hex_byte(rgb[1]) + hex_byte(rgb[2])
}

fn to_hex_digit(d: u8) -> (r: char)
    requires
        d < 16,
    ensures
        r == hex_digit(d as int),
{
    if d < 10 {
        (48 + d) as char
    } else {
        (55 + d) as char
    }
}

fn push_hex(out: &mut String, n: u8)
    ensures
        final(out)@ == old(out)@ + hex_byte(n),
{
    let ghost before = out@;
    out.push(to_hex_digit(n / 16));
    out.push(to_hex_digit(n % 16));
    proof {
        assert(out@ =~= before + hex_byte(n));
    }
}

fn write_hex(rgb: &[u8; 3]) -> (r: String)
    ensures
        r@ == hex_color(rgb@),
{
    let mut out: String = "#".to_owned();
    push_hex(&mut out, rgb[0]);
    push_hex(&mut out, rgb[1]);
    push_hex(&mut out, rgb[2]);
    out
}

/// A flagged call queued for the end of the crate: the "appears more than once"
/// help needs the crate-wide count before any diagnostic goes out.
#[derive(Debug)]
pub struct Flag {
    /// The whole call: the diagnostic's span.
    pub span: Span,
    /// The callee's final segment, replaced with `from_hex` or `srgb_hex`.
    pub seg: Span,
    /// The argument list, replaced with `("#RRGGBB")`.
    pub args: Span,
    /// The constructor produces a `Color`.
    pub color: bool,
    pub components: Components,
}

pub ghost struct FlagView {
    pub span: Span,
    pub seg: Span,
    pub args: Span,
    pub color: bool,
    pub components: ComponentsView,
}

impl View for Flag {
    type V = FlagView;

    open spec fn view(&self) -> FlagView {
        FlagView {
            span: self.span,
            seg: self.seg,
            args: self.args,
            color: self.color,
            components: self.components@,
        }
    }
}

pub open spec fn flag_views(flags: Seq<Flag>) -> Seq<FlagView> {
    flags.map_values(|flag: Flag| flag@)
}

/// What an optional flag says.
pub open spec fn flag_opt(flag: Option<Flag>) -> Option<FlagView> {
    match flag {
        Some(flag) => Some(flag@),
        None => None,
    }
}

/// How a constructor encodes its components, and whether it produces a `Color`.
pub open spec fn ctor_of(hir: Hir, n: usize) -> Option<(Encoding, bool)> {
    if hir.resolves_item(n, Known::SrgbNew) {
        Some((Encoding::F32, false))
    } else if hir.resolves_item(n, Known::SrgbNewU8) {
        Some((Encoding::U8, false))
    } else if hir.resolves_item(n, Known::SrgbFromU32) {
        Some((Encoding::U32, false))
    } else if hir.resolves_item(n, Known::ColorSrgb) {
        Some((Encoding::U8, true))
    } else if hir.resolves_item(n, Known::ColorSrgbF32) {
        Some((Encoding::F32, true))
    } else if hir.resolves_item(n, Known::ColorSrgbU32) {
        Some((Encoding::U32, true))
    } else {
        None
    }
}

fn find_ctor(hir: &Hir, n: usize) -> (r: Option<(Encoding, bool)>)
    requires
        hir.has(n),
    ensures
        r == ctor_of(*hir, n),
{
    if hir.resolves_of(n, Known::SrgbNew) {
        Some((Encoding::F32, false))
    } else if hir.resolves_of(n, Known::SrgbNewU8) {
        Some((Encoding::U8, false))
    } else if hir.resolves_of(n, Known::SrgbFromU32) {
        Some((Encoding::U32, false))
    } else if hir.resolves_of(n, Known::ColorSrgb) {
        Some((Encoding::U8, true))
    } else if hir.resolves_of(n, Known::ColorSrgbF32) {
        Some((Encoding::F32, true))
    } else if hir.resolves_of(n, Known::ColorSrgbU32) {
        Some((Encoding::U32, true))
    } else {
        None
    }
}

/// The flag that a call gives. A `Color` constructor that `manual_color_erasure`
/// rewrites gives none here.
pub open spec fn call_flag(hir: Hir, defs: Option<Defs>, n: usize, pointer_bits: u64) -> Option<
    FlagView,
> {
    match (hir.kind(n), ctor_of(hir, n)) {
        (Kind::Call { func, args }, Some((encoding, color))) => match (
            components_of(hir, encoding, args@, pointer_bits),
            final_segment(hir, func),
        ) {
            (Some(components), Some(seg)) => if hir.node(n).span.expanded() || (color
                && color::rewritten(hir, defs, n)) {
                None
            } else {
                Some(
                    FlagView {
                        span: hir.node(n).span,
                        seg,
                        args: hir.node(n).span.from_lo(hir.node(func).span.hi),
                        color,
                        components,
                    },
                )
            },
            _ => None,
        },
        _ => None,
    }
}

fn flag_call(hir: &Hir, defs: Option<Defs>, n: usize, pointer_bits: u64) -> (r: Option<Flag>)
    requires
        hir.wf(),
        hir.has(n),
        defs matches Some(d) ==> d.wf(*hir),
    ensures
        flag_opt(r) == call_flag(*hir, defs, n, pointer_bits),
{
    let span: Span = hir.nodes[n].span;
    if span.from_expansion() {
        return None;
    }
    proof {
        assert(hir.node_wf(n));
    }
    let (func, args) = match &hir.nodes[n].kind {
        Kind::Call { func, args } => (*func, args),
        _ => {
            return None;
        },
    };
    let (encoding, color) = match find_ctor(hir, n) {
        Some(ctor) => ctor,
        None => {
            return None;
        },
    };
    let components: Components = match components(hir, encoding, args, pointer_bits) {
        Some(components) => components,
        None => {
            return None;
        },
    };
    if color && color::would_rewrite(hir, defs, n) {
        return None;
    }
    match last_segment(hir, func) {
        Some(seg) => Some(
            Flag {
                span,
                seg,
                args: span.with_lo(hir.nodes[func].span.hi),
                color,
                components,
            },
        ),
        None => None,
    }
}

/// How many of the first `n` flags have the key.
pub open spec fn occurrences(flags: Seq<FlagView>, key: Seq<u32>, n: int) -> nat
    decreases n,
{
    if n <= 0 {
        0
    } else {
        occurrences(flags, key, n - 1) + (if flags[n - 1].components.key == key {
            1nat
        } else {
            0nat
        })
    }
}

/// What is said of a flagged call, where its color is built `count` times.
pub open spec fn flag_finding(flag: FlagView, count: nat) -> DiagnosticView {
    let hex = hex_color(flag.components.rgb);
    let ty = if flag.color {
        "Color"@
    } else {
        "Srgb"@
    };
    let fix = if flag.color {
        "srgb_hex"@
    } else {
        "from_hex"@
    };
    let base = DiagnosticView::bare(
        Lint::LiteralColorComponents,
        flag.span,
        "color components written as literals; write the color as `"@ + (ty + "::"@ + fix + "(\""@
            + hex) + "\")`"@,
    ).with(
        RemarkView::Multipart {
            label: "write it as a hex literal"@,
            parts: seq![(flag.seg, fix), (flag.args, "(\""@ + hex + "\")"@)],
            applicability: if flag.components.exact {
                Applicability::MachineApplicable
            } else {
                Applicability::MaybeIncorrect
            },
        },
    );
    let noted = if flag.components.exact {
        base
    } else {
        base.with(RemarkView::Note(rounding_note(flag.components.rgb)))
    };
    if count > 1 {
        noted.with(
            RemarkView::Help(
                "this color is built from literals "@ + text::decimal(count)
                    + " times in this crate; name it once — `const NAME: Srgb = Srgb::from_hex(\""@
                    + hex + "\")`"@,
            ),
        )
    } else {
        noted
    }
}

/// The note for components that the hex literal rounds.
pub open spec fn rounding_note(rgb: Seq<u8>) -> Seq<char> {
    "the components round to ("@ + text::decimal(rgb[0] as nat) + ", "@ + text::decimal(
        rgb[1] as nat,
    ) + ", "@ + text::decimal(rgb[2] as nat) + ")"@
}

fn write_rounding_note(rgb: &[u8; 3]) -> (r: String)
    ensures
        r@ == rounding_note(rgb@),
{
    let mut out: String = text::cat3(
        "the components round to (",
        text::to_decimal(rgb[0] as u64).as_str(),
        ", ",
    );
    text::push_decimal(&mut out, rgb[1] as u64);
    out.append(", ");
    text::push_decimal(&mut out, rgb[2] as u64);
    out.append(")");
    out
}

fn report(flag: &Flag, count: u64) -> (r: Diagnostic)
    ensures
        r@ == flag_finding(flag@, count as nat),
{
    let hex: String = write_hex(&flag.components.rgb);
    let ty: &str = if flag.color {
        "Color"
    } else {
        "Srgb"
    };
    let fix: &str = if flag.color {
        "srgb_hex"
    } else {
        "from_hex"
    };
    let call: String = text::cat5(ty, "::", fix, "(\"", hex.as_str());
    let mut finding: Diagnostic = Diagnostic::bare(
        Lint::LiteralColorComponents,
        flag.span,
        text::cat3(
            "color components written as literals; write the color as `",
            call.as_str(),
            "\")`",
        ).as_str(),
    );
    let mut parts: Vec<(Span, String)> = Vec::new();
    parts.push((flag.seg, fix.to_owned()));
    parts.push((flag.args, text::cat3("(\"", hex.as_str(), "\")")));
    proof {
        assert(diagnostics::part_views(parts@) =~= seq![
            (flag.seg, fix@),
            (flag.args, "(\""@ + hex@ + "\")"@),
        ]);
    }
    finding.multipart_suggestion(
        "write it as a hex literal",
        parts,
        if flag.components.exact {
            Applicability::MachineApplicable
        } else {
            Applicability::MaybeIncorrect
        },
    );
    if !flag.components.exact {
        finding.note(write_rounding_note(&flag.components.rgb));
    }
    if count > 1 {
        finding.help(
            text::cat5(
                "this color is built from literals ",
                text::to_decimal(count).as_str(),
                " times in this crate; name it once — `const NAME: Srgb = Srgb::from_hex(\"",
                hex.as_str(),
                "\")`",
            ),
        );
    }
    finding
}

/// What is said of the first `n` flags.
pub open spec fn findings_upto(flags: Seq<FlagView>, n: int) -> Seq<DiagnosticView>
    decreases n,
{
    if n <= 0 {
        seq![]
    } else {
        findings_upto(flags, n - 1).push(
            flag_finding(
                flags[n - 1],
                occurrences(flags, flags[n - 1].components.key, flags.len() as int),
            ),
        )
    }
}

/// The lint pass: it collects every call so that the end of the crate can count
/// how often each literal color appears.
#[derive(Debug)]
pub struct LiteralColorComponents {
    pub flags: Vec<Flag>,
}

fn same_key(a: &[u32; 3], b: &[u32; 3]) -> (r: bool)
    ensures
        r == (a@ == b@),
{
    let same: bool = a[0] == b[0] && a[1] == b[1] && a[2] == b[2];
    proof {
        if same {
            assert(a@ =~= b@);
        }
    }
    same
}

impl Default for LiteralColorComponents {
    fn default() -> (r: LiteralColorComponents)
        ensures
            flag_views(r.flags@) == Seq::<FlagView>::empty(),
    {
        LiteralColorComponents::new()
    }
}

impl LiteralColorComponents {
    /// A pass that has seen nothing yet.
    pub fn new() -> (r: LiteralColorComponents)
        ensures
            flag_views(r.flags@) == Seq::<FlagView>::empty(),
    {
        let r: LiteralColorComponents = LiteralColorComponents { flags: Vec::new() };
        proof {
            assert(flag_views(r.flags@) =~= Seq::<FlagView>::empty());
        }
        r
    }

    /// Queues a color constructor whose components are all numeric literals.
    pub fn check_expr(&mut self, hir: &Hir, defs: Option<Defs>, n: usize, pointer_bits: u64)
        requires
            hir.wf(),
            hir.has(n),
            defs matches Some(d) ==> d.wf(*hir),
        ensures
            flag_views(final(self).flags@) == (match call_flag(*hir, defs, n, pointer_bits) {
                Some(flag) => flag_views(old(self).flags@).push(flag),
                None => flag_views(old(self).flags@),
            }),
    {
        if let Some(flag) = flag_call(hir, defs, n, pointer_bits) {
            let ghost before = self.flags@;
            self.flags.push(flag);
            proof {
                assert(flag_views(self.flags@) =~= flag_views(before).push(flag@));
            }
        }
    }

    fn count(&self, key: &[u32; 3]) -> (r: usize)
        ensures
            r == occurrences(flag_views(self.flags@), key@, self.flags@.len() as int),
    {
        let ghost views = flag_views(self.flags@);
        let mut count: usize = 0;
        let mut i: usize = 0;
        while i < self.flags.len()
            invariant
                i <= self.flags.len(),
                count <= i,
                views == flag_views(self.flags@),
                count == occurrences(views, key@, i as int),
            decreases self.flags.len() - i,
        {
            proof {
                assert(views[i as int] == self.flags@[i as int]@);
            }
            if same_key(&self.flags[i].components.key, key) {
                count = count + 1;
            }
            i = i + 1;
        }
        count
    }

    /// Reports every queued call, with how often its color appears in the crate,
    /// and empties the queue.
    pub fn check_crate_post(&mut self) -> (r: Vec<Diagnostic>)
        ensures
            diagnostics::found_all(r@) == findings_upto(
                flag_views(old(self).flags@),
                old(self).flags@.len() as int,
            ),
            final(self).flags@.len() == 0,
    {
        let ghost views = flag_views(self.flags@);
        let mut out: Vec<Diagnostic> = Vec::new();
        let mut i: usize = 0;
        proof {
            assert(diagnostics::found_all(out@) =~= seq![]);
        }
        while i < self.flags.len()
            invariant
                i <= self.flags.len(),
                *self == *old(self),
                views == flag_views(self.flags@),
                diagnostics::found_all(out@) == findings_upto(views, i as int),
            decreases self.flags.len() - i,
        {
            proof {
                assert(views[i as int] == self.flags@[i as int]@);
            }
            let count: usize = self.count(&self.flags[i].components.key);
            let finding: Diagnostic = report(&self.flags[i], count as u64);
            let ghost before = out@;
            out.push(finding);
            proof {
                assert(diagnostics::found_all(out@) =~= diagnostics::found_all(before).push(
                    finding@,
                ));
            }
            i = i + 1;
        }
        self.flags = Vec::new();
        out
    }
}

proof fn lemma_peeled_is_held_alike(hir: Hir, n: usize)
    requires
        hir.wf(),
        hir.linked(),
        hir.has(n),
    ensures
        crate::anyview::holder(hir, crate::anyview::peeled(hir, n), true) == crate::anyview::holder(hir, n, true),
    decreases n,
{
    assert(hir.node_wf(n));
    assert(hir.owns_children(n));
    match hir.kind(n) {
        Kind::DropTemps { inner } => {
            assert(hir.kind(n).children()[0] == inner);
            lemma_peeled_is_held_alike(hir, inner);
        },
        Kind::BlockExpr { block } => {
            assert(hir.kind(n).children()[0] == block);
            assert(hir.node_wf(block));
            assert(hir.owns_children(block));
            if let Some(tail) = crate::anyview::tail_of(hir, n) {
                let kids = hir.kind(block).children();
                assert(kids[kids.len() - 1] == tail);
                assert(crate::anyview::holder(hir, tail, true) == crate::anyview::holder(
                    hir,
                    block,
                    true,
                ));
                lemma_peeled_is_held_alike(hir, tail);
            }
        },
        _ => {},
    }
}

proof fn lemma_outermost_is_call(hir: Hir, n: usize)
    requires
        hir.is_call(n),
    ensures
        hir.is_call(color::outermost(hir, n)),
    decreases hir.nodes@.len() - n,
{
    if let Some(p) = hir.up(n) {
        if hir.is_call(p) {
            lemma_outermost_is_call(hir, p);
        }
    }
}

proof fn lemma_operand_is_held(hir: Hir, call: usize, arg: usize)
    requires
        hir.wf(),
        hir.linked(),
        hir.has(call),
        hir.operands(call).contains(arg),
    ensures
        arg < call,
        hir.up(arg) == Some(call),
        crate::anyview::holder(hir, arg, true) == Some((call, arg)),
{
    assert(hir.node_wf(call));
    assert(hir.owns_children(call));
    let k = choose|k: int| 0 <= k < hir.operands(call).len() && hir.operands(call)[k] == arg;
    let kids = hir.kind(call).children();
    hir.kind(call).lemma_children_below(call as int);
    if hir.kind(call) is Call {
        assert(kids[k + 1] == arg);
    } else {
        assert(kids[k] == arg);
    }
}

proof fn lemma_peeled_in_no_let(hir: Hir, n: usize)
    requires
        hir.wf(),
        hir.linked(),
        hir.has(n),
        color::let_local(hir, n) is None,
    ensures
        color::let_local(hir, crate::anyview::peeled(hir, n)) is None,
    decreases n,
{
    assert(hir.node_wf(n));
    assert(hir.owns_children(n));
    match hir.kind(n) {
        Kind::DropTemps { inner } => {
            assert(hir.kind(n).children()[0] == inner);
            lemma_peeled_in_no_let(hir, inner);
        },
        Kind::BlockExpr { block } => {
            assert(hir.node_wf(block));
            assert(hir.owns_children(block));
            if let Some(tail) = crate::anyview::tail_of(hir, n) {
                let kids = hir.kind(block).children();
                assert(kids[kids.len() - 1] == tail);
                lemma_peeled_in_no_let(hir, tail);
            }
        },
        _ => {},
    }
}

/// Of a constructor at the bottom of an argument at a color parameter, exactly
/// one of the two color lints speaks: `manual_color_erasure` flags the argument
/// where it would rewrite it and says nothing otherwise, and this lint is silent
/// on the `Color` constructor wherever the other one speaks.
pub proof fn one_color_lint_per_argument(
    hir: Hir,
    module: crate::imports::Module,
    defs: Option<Defs>,
    call: usize,
    arg: usize,
    bounds: Seq<hir::Bound>,
    n: usize,
    reported: Seq<usize>,
    pointer_bits: u64,
)
    requires
        hir.wf(),
        hir.linked(),
        hir.has(call),
        !hir.node(call).span.expanded(),
        hir.operands(call).contains(arg),
        color::param_bounds(hir, call, arg) == Some(bounds),
        color::color_param(hir, bounds),
        hir.is_call(n),
        color::outermost(hir, n) == crate::anyview::peeled(hir, arg),
    ensures
        color::rewritten(hir, defs, n) ==> {
            &&& defs matches Some(d)
            &&& color::flag_of(hir, d, color::outermost(hir, n)) matches Some((flag, _))
            &&& crate::manual_color_erasure::arg_step(hir, module, defs, arg, bounds, reported) == (
            crate::manual_color_erasure::Step {
                finding: crate::manual_color_erasure::flag_finding(
                    hir,
                    module,
                    flag,
                    color::outermost(hir, n),
                    color::bound_text(hir, bounds),
                ),
                reported,
            })
        },
        !color::rewritten(hir, defs, n) ==> crate::manual_color_erasure::arg_step(
            hir,
            module,
            defs,
            arg,
            bounds,
            reported,
        ) == (crate::manual_color_erasure::Step { finding: None, reported }),
        color::rewritten(hir, defs, n) && (ctor_of(hir, n) matches Some((_, color)) && color)
            ==> call_flag(hir, defs, n, pointer_bits) is None,
{
    lemma_operand_is_held(hir, call, arg);
    lemma_peeled_is_held_alike(hir, arg);
    lemma_peeled_in_no_let(hir, arg);
    lemma_outermost_is_call(hir, n);
}

proof fn lemma_let_around(hir: Hir, n: usize)
    requires
        hir.wf(),
        hir.has(n),
    ensures
        crate::manual_color_erasure::enclosing_let(hir, n) matches Some(p) ==> hir.has(p),
    decreases hir.nodes@.len() - n,
{
    if let Some(p) = hir.up(n) {
        lemma_let_around(hir, p);
    }
}

/// Of a constructor at the bottom of the initializer of a local that is used,
/// `manual_color_erasure` flags the initializer exactly where it would rewrite
/// it, and this lint is then silent on the `Color` constructor.
pub proof fn one_color_lint_per_initializer(
    hir: Hir,
    defs: Option<Defs>,
    local: usize,
    n: usize,
    pointer_bits: u64,
)
    requires
        hir.wf(),
        hir.linked(),
        hir.has(local),
        hir.kind(local) matches Kind::Binding { id, .. } && id == local,
        color::is_used(hir, local),
        hir.is_call(n),
        crate::manual_color_erasure::initializer(hir, local) == Some(color::outermost(hir, n)),
    ensures
        color::rewritten(hir, defs, n) <==> crate::manual_color_erasure::local_flag(
            hir,
            defs,
            local,
        ) is Some,
        color::rewritten(hir, defs, n) && (ctor_of(hir, n) matches Some((_, color)) && color)
            ==> call_flag(hir, defs, n, pointer_bits) is None,
{
    let init = color::outermost(hir, n);
    lemma_let_around(hir, local);
    if let Some(stmt) = crate::manual_color_erasure::enclosing_let(hir, local) {
        assert(hir.node_wf(stmt));
        assert(hir.owns_children(stmt));
        assert(hir.kind(stmt).children()[0] == init);
        hir.kind(stmt).lemma_children_below(stmt as int);
        assert(color::let_local(hir, init) == Some(local));
    }
}

/// What a hexadecimal digit is worth.
pub open spec fn hex_worth(c: char) -> int {
    if '0' <= c && c <= '9' {
        c as int - '0' as int
    } else if 'a' <= c && c <= 'f' {
        c as int - 'a' as int + 10
    } else if 'A' <= c && c <= 'F' {
        c as int - 'A' as int + 10
    } else {
        -1
    }
}

/// The colour that `#RRGGBB` stands for.
pub open spec fn hex_reads(s: Seq<char>, rgb: Seq<u8>) -> bool {
    &&& s.len() == 7
    &&& s[0] == '#'
    &&& hex_worth(s[1]) * 16 + hex_worth(s[2]) == rgb[0]
    &&& hex_worth(s[3]) * 16 + hex_worth(s[4]) == rgb[1]
    &&& hex_worth(s[5]) * 16 + hex_worth(s[6]) == rgb[2]
}

proof fn lemma_hex_byte(n: u8)
    ensures
        hex_byte(n).len() == 2,
        hex_worth(hex_byte(n)[0]) * 16 + hex_worth(hex_byte(n)[1]) == n,
{
    let high = n as int / 16;
    let low = n as int % 16;
    assert(hex_worth(hex_digit(high)) == high);
    assert(hex_worth(hex_digit(low)) == low);
}

/// The hex literal that is proposed stands for the colour's own bytes: red, green
/// and blue, in that order.
pub proof fn hex_colors_read_back(rgb: Seq<u8>)
    requires
        rgb.len() == 3,
    ensures
        hex_reads(hex_color(rgb), rgb),
{
    reveal_strlit("#");
    lemma_hex_byte(rgb[0]);
    lemma_hex_byte(rgb[1]);
    lemma_hex_byte(rgb[2]);
}

/// Two colours with the same hex literal have the same bytes.
pub proof fn distinct_colors_have_distinct_literals(a: Seq<u8>, b: Seq<u8>)
    requires
        a.len() == 3,
        b.len() == 3,
        hex_color(a) == hex_color(b),
    ensures
        a == b,
{
    hex_colors_read_back(a);
    hex_colors_read_back(b);
    assert(a =~= b);
}

/// The bytes of a colour are those of its operands: three bytes in the order in
/// which they are written, or the bytes of one packed number, red the highest.
pub proof fn components_are_the_operands(
    hir: Hir,
    encoding: Encoding,
    args: Seq<usize>,
    pointer_bits: u64,
)
    ensures
        components_of(hir, encoding, args, pointer_bits) matches Some(found) ==> {
            &&& found.rgb.len() == 3
            &&& found.key.len() == 3
            &&& match encoding {
                Encoding::F32 => args.len() == 3 && forall|i: int|
                    0 <= i < 3 ==> (value_of(hir, #[trigger] args[i], pointer_bits) matches Some(v)
                        && (v.1 matches Num::Float(f) && found.rgb[i] == f.byte && found.key[i]
                        == f.bits && (found.exact ==> f.on_grid))),
                Encoding::U8 => args.len() == 3 && found.exact && forall|i: int|
                    0 <= i < 3 ==> (value_of(hir, #[trigger] args[i], pointer_bits) matches Some(v)
                        && (v.1 matches Num::Int(bits, _) && found.rgb[i] == bits)),
                Encoding::U32 => args.len() == 1 && found.exact && (value_of(
                    hir,
                    args[0],
                    pointer_bits,
                ) matches Some(v) && (v.1 matches Num::Int(bits, _) && bits as int % 0x100_0000
                    == found.rgb[0] * 0x1_0000 + found.rgb[1] * 0x100 + found.rgb[2])),
            }
        },
{
    if let Some(found) = components_of(hir, encoding, args, pointer_bits) {
        match encoding {
            Encoding::F32 => {
                assert(float_component(hir, args[0], pointer_bits) is Some);
                assert(float_component(hir, args[1], pointer_bits) is Some);
                assert(float_component(hir, args[2], pointer_bits) is Some);
                assert forall|i: int| 0 <= i < 3 implies (value_of(
                    hir,
                    #[trigger] args[i],
                    pointer_bits,
                ) matches Some(v) && (v.1 matches Num::Float(f) && found.rgb[i] == f.byte
                    && found.key[i] == f.bits && (found.exact ==> f.on_grid))) by {
                    if i == 0 {
                    } else if i == 1 {
                    } else {
                    }
                }
            },
            Encoding::U8 => {
                assert forall|i: int| 0 <= i < 3 implies (value_of(
                    hir,
                    #[trigger] args[i],
                    pointer_bits,
                ) matches Some(v) && (v.1 matches Num::Int(bits, _) && found.rgb[i] == bits)) by {
                    if i == 0 {
                    } else if i == 1 {
                    } else {
                    }
                }
            },
            Encoding::U32 => {
                let v = match value_of(hir, args[0], pointer_bits) {
                    Some((_, Num::Int(v, _))) => v as int,
                    _ => 0,
                };
                assert(v % 0x100_0000 == ((v / 0x1_0000) % 0x100) * 0x1_0000 + ((v / 0x100) % 0x100)
                    * 0x100 + v % 0x100) by (nonlinear_arith)
                    requires
                        0 <= v,
                ;
            },
        }
    }
}

/// A constructor is read as it takes its components: as floats, as bytes or as a
/// packed number; and it makes a `Color` just where it is one of `Color`.
pub proof fn constructors_are_read_as_they_take(hir: Hir, n: usize)
    ensures
        ctor_of(hir, n) matches Some(found) ==> match found.0 {
            Encoding::F32 => hir.resolves_item(
                n,
                if found.1 {
                    Known::ColorSrgbF32
                } else {
                    Known::SrgbNew
                },
            ),
            Encoding::U8 => hir.resolves_item(
                n,
                if found.1 {
                    Known::ColorSrgb
                } else {
                    Known::SrgbNewU8
                },
            ),
            Encoding::U32 => hir.resolves_item(
                n,
                if found.1 {
                    Known::ColorSrgbU32
                } else {
                    Known::SrgbFromU32
                },
            ),
        },
        hir.resolves_item(n, Known::SrgbNew) || hir.resolves_item(n, Known::SrgbNewU8)
            || hir.resolves_item(n, Known::SrgbFromU32) || hir.resolves_item(n, Known::ColorSrgb)
            || hir.resolves_item(n, Known::ColorSrgbF32) || hir.resolves_item(
            n,
            Known::ColorSrgbU32,
        ) ==> ctor_of(hir, n) is Some,
{
}

/// The fix writes the literal in the constructor that takes one, of the type that
/// the call made: `Color::srgb_hex` or `Srgb::from_hex`; and only a colour that
/// the literal gives exactly is replaced without a question.
pub proof fn literal_fixes_keep_the_type(flag: FlagView, count: nat)
    ensures
        ({
            let finding = flag_finding(flag, count);
            &&& finding.span == flag.span
            &&& finding.remarks.len() > 0
            &&& finding.remarks[0] matches RemarkView::Multipart { label: _, parts, applicability }
            &&& parts == seq![
                (
                    flag.seg,
                    if flag.color {
                        "srgb_hex"@
                    } else {
                        "from_hex"@
                    },
                ),
                (flag.args, "(\""@ + hex_color(flag.components.rgb) + "\")"@),
            ]
            &&& applicability == Applicability::MachineApplicable <==> flag.components.exact
        }),
{
}

/// A colour is counted once for each call that builds it.
pub proof fn occurrences_count_the_flags(flags: Seq<FlagView>, key: Seq<u32>, n: int)
    requires
        0 <= n <= flags.len(),
    ensures
        occurrences(flags, key, n) == flags.take(n).filter(
            |flag: FlagView| flag.components.key == key,
        ).len(),
    decreases n,
{
    let same = |flag: FlagView| flag.components.key == key;
    reveal(Seq::filter);
    if n > 0 {
        occurrences_count_the_flags(flags, key, n - 1);
        assert(flags.take(n).drop_last() =~= flags.take(n - 1));
        assert(flags.take(n).last() == flags[n - 1]);
    } else {
        assert(flags.take(n) =~= seq![]);
    }
}

/// A component is worth what its expression is: a literal its own value, a
/// negation the negative of its operand, in the operand's type, and parentheses
/// nothing of their own.
pub proof fn components_are_worth_their_expression(
    hir: Hir,
    n: usize,
    operand: usize,
    bits: u128,
    t: usize,
    w: nat,
    pointer_bits: u64,
)
    requires
        1 <= w <= 128,
    ensures
        hir.kind(n) matches Kind::Lit { lit: Lit::Int { value, suffixed: _ } } ==> value_of(
            hir,
            n,
            pointer_bits,
        ) == Some((n, Num::Int(value, hir.node(n).ty))),
        hir.kind(n) == (Kind::DropTemps { inner: operand }) && operand < n ==> value_of(
            hir,
            n,
            pointer_bits,
        ) == value_of(hir, operand, pointer_bits),
        hir.kind(n) == (Kind::Unary { op: UnOp::Neg, operand }) && operand < n && value_of(
            hir,
            operand,
            pointer_bits,
        ) == Some((operand, Num::Int(bits, t))) && hir.ty(t).kind is Int && width(
            hir,
            t,
            pointer_bits,
        ) == Some(w) ==> (value_of(hir, n, pointer_bits) matches Some(found) && (
        found.1 matches Num::Int(negative, same) && same == t && (signed_value(
            negative as int,
            w,
        ) + signed_value(bits as int, w)) % (vstd::arithmetic::power2::pow2(w) as int) == 0)),
{
    if hir.kind(n) == (Kind::Unary { op: UnOp::Neg, operand }) && operand < n && value_of(
        hir,
        operand,
        pointer_bits,
    ) == Some((operand, Num::Int(bits, t))) && hir.ty(t).kind is Int && width(hir, t, pointer_bits)
        == Some(w) {
        let p = vstd::arithmetic::power2::pow2(w) as int;
        vstd::arithmetic::power2::lemma_pow2_pos(w);
        vstd::arithmetic::power2::lemma_pow2(w);
        if w < 128 {
            vstd::arithmetic::power2::lemma_pow2_strictly_increases(w, 128);
        }
        vstd::arithmetic::power2::lemma2_to64();
        vstd::arithmetic::power2::lemma_pow2_adds(64, 64);
        let v = signed_value(bits as int, w);
        let negative = low_bits(-v, w);
        assert(0 <= negative < p) by (nonlinear_arith)
            requires
                p > 0,
                negative == (-v) % p,
        ;
        assert(p <= u128::MAX + 1);
        let back = signed_value(negative, w);
        assert(negative % p == negative) by (nonlinear_arith)
            requires
                0 <= negative < p,
        ;
        assert(back == negative || back == negative - p);
        vstd::arithmetic::div_mod::lemma_fundamental_div_mod(-v, p);
        let q = (-v) / p;
        let turns: int = if back == negative { -q } else { -q - 1 };
        assert(back + v == turns * p) by (nonlinear_arith)
            requires
                -v == p * q + negative,
                back == negative && turns == -q || back == negative - p && turns == -q - 1,
        ;
        vstd::arithmetic::div_mod::lemma_mod_multiples_basic(turns, p);
    }
}

} // verus!
