//! `manual_edge_insets`: an `EdgeInsets` constructor passed straight to an
//! `impl Into<EdgeInsets>`/`impl IntoComputed<EdgeInsets>` parameter restates a
//! conversion the parameter performs itself.
//!
//! The `symmetric` to `(vertical, horizontal)` rewrite has one subtlety at an
//! `IntoComputed` position: the elements of the pair never unify there, and
//! `EdgeInsets` converts only from `(f32, f32)` and `(f64, f64)`. A path operand
//! that resolves to a local binding (`let p = 8.0`) was typed `f32` only by
//! `symmetric`'s parameters and re-infers after the rewrite: whether the pair
//! then needs an `f32` suffix depends on the binding's other uses, which the
//! lint does not track, so any local operand demotes the suggestion to
//! `MaybeIncorrect` with the plain tuple text for a human to settle. A `const`,
//! `static` or associated-const path is fixed `f32`, so with no local operand
//! each unsuffixed float operand is spelled `f32` and the pair stays
//! `(f32, f32)`; a pair of unsuffixed floats falls back to `(f64, f64)` and
//! needs nothing. At a plain `Into` position the pair always compiles, so the
//! rewrite stays unsuffixed there.

use crate::diagnostics;
use crate::diagnostics::{Applicability, Diagnostic, DiagnosticView, RemarkView};
use crate::hir;
use crate::hir::{Bound, Hir, Kind, Lit, Span, UnOp};
use crate::known::Known;
use crate::lint::Lint;
use crate::text;
use vstd::prelude::*;

verus! {

/// An `Into<EdgeInsets>` or `IntoComputed<EdgeInsets>` bound.
pub open spec fn insets_bound(hir: Hir, bound: Bound) -> bool {
    &&& hir.is_def(bound.def, Known::IntoTrait) || hir.is_def(bound.def, Known::IntoComputedTrait)
    &&& bound.arg matches Some(t)
    &&& hir.ty_is(t, Known::EdgeInsets)
}

/// Whether the bound is an `Into<EdgeInsets>`/`IntoComputed<EdgeInsets>` bound:
/// a parameter position the rewrites are verified against.
pub fn edge_insets_bound(hir: &Hir, bound: &Bound) -> (r: bool)
    requires
        hir::opt_below(bound.arg, hir.types@.len() as int),
    ensures
        r == insets_bound(*hir, *bound),
{
    if !(hir.def_path_eq(bound.def, Known::IntoTrait) || hir.def_path_eq(
        bound.def,
        Known::IntoComputedTrait,
    )) {
        return false;
    }
    match bound.arg {
        Some(t) => hir.is_adt(t, Known::EdgeInsets),
        None => false,
    }
}

/// A bound that the rewrites are verified against.
pub open spec fn verified_bound(hir: Hir, bound: Bound) -> bool {
    insets_bound(hir, bound) || hir.is_def(bound.def, Known::SizedTrait)
}

/// Whether the bound is one the rewrites are verified against: an `EdgeInsets`
/// conversion bound or `Sized`.
pub fn known_bound(hir: &Hir, bound: &Bound) -> (r: bool)
    requires
        hir::opt_below(bound.arg, hir.types@.len() as int),
    ensures
        r == verified_bound(*hir, *bound),
{
    edge_insets_bound(hir, bound) || hir.def_path_eq(bound.def, Known::SizedTrait)
}

/// A literal, a negated one, or a path.
pub open spec fn reusable(hir: Hir, n: usize) -> bool {
    match hir.kind(n) {
        Kind::Lit { .. } | Kind::Path { .. } => true,
        Kind::Unary { op, operand } => op is Neg && hir.kind(operand) is Lit,
        _ => false,
    }
}

/// `expr` is a literal (a negated one counts) or a path: the operand shapes the
/// fix may reuse verbatim.
pub fn reusable_operand(hir: &Hir, n: usize) -> (r: bool)
    requires
        hir.wf(),
        hir.has(n),
    ensures
        r == reusable(*hir, n),
{
    proof {
        assert(hir.node_wf(n));
    }
    match &hir.nodes[n].kind {
        Kind::Lit { .. } | Kind::Path { .. } => true,
        Kind::Unary { op, operand } => match &hir.nodes[*operand].kind {
            Kind::Lit { .. } => *op == UnOp::Neg,
            _ => false,
        },
        _ => false,
    }
}

/// The literal `0` or `0.0`.
pub open spec fn is_zero(hir: Hir, n: usize) -> bool {
    match hir.kind(n) {
        Kind::Lit { lit: Lit::Int { value, suffixed: _ } } => value == 0,
        Kind::Lit { lit: Lit::Float { digits, zero: _, suffixed: _ } } => digits@ == "0.0"@,
        _ => false,
    }
}

/// `expr` is the literal `0` or `0.0`: a `symmetric` operand that leaves its
/// axis unpadded.
pub fn zero_literal(hir: &Hir, n: usize) -> (r: bool)
    requires
        hir.has(n),
    ensures
        r == is_zero(*hir, n),
{
    match &hir.nodes[n].kind {
        Kind::Lit { lit: Lit::Int { value, .. } } => *value == 0,
        Kind::Lit { lit: Lit::Float { digits, .. } } => text::str_eq(digits.as_str(), "0.0"),
        _ => false,
    }
}

/// A float literal without a suffix.
pub open spec fn plain_float(hir: Hir, n: usize) -> bool {
    match hir.kind(n) {
        Kind::Lit { lit: Lit::Float { digits: _, zero: _, suffixed } } => !suffixed,
        _ => false,
    }
}

/// A float literal without a suffix, optionally negated.
pub open spec fn floats(hir: Hir, n: usize) -> bool {
    match hir.kind(n) {
        Kind::Unary { op, operand } => op is Neg && plain_float(hir, operand),
        _ => plain_float(hir, n),
    }
}

fn is_plain_float(hir: &Hir, n: usize) -> (r: bool)
    requires
        hir.has(n),
    ensures
        r == plain_float(*hir, n),
{
    match &hir.nodes[n].kind {
        Kind::Lit { lit: Lit::Float { suffixed, .. } } => !*suffixed,
        _ => false,
    }
}

/// `expr` is an unsuffixed float literal, optionally negated: the operand shape
/// that re-infers `f64` at a tuple position without `symmetric`'s `f32`
/// parameter types to pin it.
pub fn unsuffixed_float(hir: &Hir, n: usize) -> (r: bool)
    requires
        hir.wf(),
        hir.has(n),
    ensures
        r == floats(*hir, n),
{
    proof {
        assert(hir.node_wf(n));
    }
    match &hir.nodes[n].kind {
        Kind::Unary { op, operand } => *op == UnOp::Neg && is_plain_float(hir, *operand),
        _ => is_plain_float(hir, n),
    }
}

/// A float literal's spelling with the `f32` suffix: behind a `0` where it ends
/// in a point.
pub open spec fn pinned(text: Seq<char>) -> Seq<char> {
    if text.len() > 0 && text.last() == '.' {
        text.drop_last() + ".0f32"@
    } else {
        text + "f32"@
    }
}

/// `text`, an unsuffixed float literal's spelling, possibly negated, with the
/// `f32` suffix pinned on the literal. A trailing `.` gets a `0` first: `16.f32`
/// does not lex as a literal.
pub fn f32_suffixed(text: &str) -> (r: String)
    ensures
        r@ == pinned(text@),
{
    let cs: Vec<char> = text::chars(text);
    if cs.len() > 0 && cs[cs.len() - 1] == '.' {
        let head: String = text::string_of(&cs, 0, cs.len() - 1);
        proof {
            assert(head@ =~= text@.drop_last());
        }
        text::cat(head.as_str(), ".0f32")
    } else {
        text::cat(text, "f32")
    }
}

/// The source of a node's outermost macro call, or `..`.
pub open spec fn callsite_or_dots(hir: Hir, n: usize) -> Seq<char> {
    match hir.node(n).callsite {
        Some(source) => source@,
        None => ".."@,
    }
}

/// The sources of the operands.
pub open spec fn operand_texts(hir: Hir, operands: Seq<usize>) -> Seq<Seq<char>> {
    operands.map_values(|n: usize| callsite_or_dots(hir, n))
}

/// What is left of the applicability after the first `n` operands.
pub open spec fn after_operands(
    hir: Hir,
    operands: Seq<usize>,
    n: int,
    applicability: Applicability,
) -> Applicability
    decreases n,
{
    if n <= 0 {
        applicability
    } else {
        after_operands(hir, operands, n - 1, applicability).weakened(
            hir.node(operands[n - 1]).callsite is None,
            false,
        )
    }
}

/// The sources of the operands, at the outermost macro call each, and what is left of
/// the applicability.
pub fn read_operands(hir: &Hir, operands: &Vec<usize>, applicability: Applicability) -> (r: (
    Vec<String>,
    Applicability,
))
    requires
        hir::all_below(operands@, hir.nodes@.len() as int),
    ensures
        text::texts(r.0@) == operand_texts(*hir, operands@),
        r.1 == after_operands(*hir, operands@, operands@.len() as int, applicability),
{
    let mut list: Vec<String> = Vec::new();
    let mut left: Applicability = applicability;
    let mut i: usize = 0;
    while i < operands.len()
        invariant
            i <= operands.len(),
            hir::all_below(operands@, hir.nodes@.len() as int),
            list.len() == i,
            forall|k: int| 0 <= k < i ==> list@[k]@ == callsite_or_dots(*hir, #[trigger] operands@[k]),
            left == after_operands(*hir, operands@, i as int, applicability),
        decreases operands.len() - i,
    {
        match &hir.nodes[operands[i]].callsite {
            Some(source) => {
                list.push(source.clone());
                left = left.weaken(false, false);
            },
            None => {
                list.push("..".to_owned());
                left = left.weaken(true, false);
            },
        }
        i = i + 1;
    }
    proof {
        assert(text::texts(list@) =~= operand_texts(*hir, operands@));
    }
    (list, left)
}

/// The message for a parameter with that bound.
pub open spec fn message(into_computed: bool) -> Seq<char> {
    "this parameter takes `impl "@ + (if into_computed {
        "IntoComputed<EdgeInsets>"@
    } else {
        "Into<EdgeInsets>"@
    }) + "`; pass the insets directly"@
}

/// An operand as it stands in the pair.
pub open spec fn pair_part(hir: Hir, n: usize, pin: bool) -> Seq<char> {
    if pin && floats(hir, n) {
        pinned(callsite_or_dots(hir, n))
    } else {
        callsite_or_dots(hir, n)
    }
}

/// The `(vertical, horizontal)` pair, and how far it can be trusted.
pub open spec fn pair_text(
    hir: Hir,
    v: usize,
    h: usize,
    into_computed: bool,
    applicability: Applicability,
) -> (Seq<char>, Applicability) {
    let local = hir.local(v) is Some || hir.local(h) is Some;
    let pin = into_computed && !local && floats(hir, v) != floats(hir, h);
    (
        "("@ + pair_part(hir, v, pin) + ", "@ + pair_part(hir, h, pin) + ")"@,
        if into_computed && local {
            Applicability::MaybeIncorrect
        } else {
            applicability
        },
    )
}

/// The name of the modifier that pads one axis, and the operand it takes.
pub open spec fn one_axis(hir: Hir, v: usize, h: usize) -> (Seq<char>, usize) {
    if is_zero(hir, v) {
        ("padding_horizontal"@, h)
    } else {
        ("padding_vertical"@, v)
    }
}

/// The place of the name of a method call.
pub open spec fn method_span(hir: Hir, call: usize) -> Option<Span> {
    match hir.kind(call) {
        Kind::MethodCall { name, receiver: _, args: _ } => Some(name.span),
        _ => None,
    }
}

/// What is said of the constructor `arg` in `call`.
pub open spec fn arg_finding(hir: Hir, call: usize, arg: usize, into_computed: bool) -> Option<
    DiagnosticView,
> {
    let span = hir.node(arg).span;
    match hir.kind(arg) {
        Kind::Call { func: _, args } => {
            let operands = args@;
            let applicability = after_operands(
                hir,
                operands,
                operands.len() as int,
                Applicability::MachineApplicable.guarded(text::text_opt(hir.node(arg).snippet)),
            );
            if span.expanded() || !all_reusable(hir, operands) {
                None
            } else if hir.calls_item(arg, Known::EdgeInsetsAll) && operands.len() == 1 {
                Some(
                    DiagnosticView::with_sugg(
                        Lint::ManualEdgeInsets,
                        span,
                        message(into_computed),
                        "pass the value directly"@,
                        callsite_or_dots(hir, operands[0]),
                        applicability,
                    ),
                )
            } else if hir.calls_item(arg, Known::EdgeInsetsSymmetric) && operands.len() == 2 {
                let (v, h) = (operands[0], operands[1]);
                if is_zero(hir, v) != is_zero(hir, h) && method_span(hir, call) is Some
                    && hir.resolves_item(call, Known::PaddingWith) {
                    let (name, kept) = one_axis(hir, v, h);
                    Some(
                        DiagnosticView::bare(
                            Lint::ManualEdgeInsets,
                            span,
                            message(into_computed),
                        ).with(
                            RemarkView::Multipart {
                                label: "use `"@ + name + "`"@,
                                parts: seq![
                                    (method_span(hir, call)->0, name),
                                    (span, callsite_or_dots(hir, kept)),
                                ],
                                applicability,
                            },
                        ),
                    )
                } else {
                    let (pair, left) = pair_text(hir, v, h, into_computed, applicability);
                    Some(
                        DiagnosticView::with_sugg(
                            Lint::ManualEdgeInsets,
                            span,
                            message(into_computed),
                            "use a `(vertical, horizontal)` pair"@,
                            pair,
                            left,
                        ),
                    )
                }
            } else if hir.calls_item(arg, Known::EdgeInsetsNew) && operands.len() == 4 {
                Some(
                    DiagnosticView::with_sugg(
                        Lint::ManualEdgeInsets,
                        span,
                        message(into_computed),
                        "use a `[top, bottom, leading, trailing]` array"@,
                        "["@ + text::joined(operand_texts(hir, operands), ", "@) + "]"@,
                        applicability,
                    ),
                )
            } else {
                None
            }
        },
        _ => None,
    }
}

/// Every operand can be reused verbatim.
pub open spec fn all_reusable(hir: Hir, operands: Seq<usize>) -> bool {
    forall|i: int| 0 <= i < operands.len() ==> reusable(hir, #[trigger] operands[i])
}

fn are_reusable(hir: &Hir, operands: &Vec<usize>) -> (r: bool)
    requires
        hir.wf(),
        hir::all_below(operands@, hir.nodes@.len() as int),
    ensures
        r == all_reusable(*hir, operands@),
{
    let mut i: usize = 0;
    while i < operands.len()
        invariant
            i <= operands.len(),
            hir.wf(),
            hir::all_below(operands@, hir.nodes@.len() as int),
            forall|k: int| 0 <= k < i ==> reusable(*hir, #[trigger] operands@[k]),
        decreases operands.len() - i,
    {
        if !reusable_operand(hir, operands[i]) {
            assert(!reusable(*hir, operands@[i as int]));
            return false;
        }
        i = i + 1;
    }
    true
}

fn write_message(into_computed: bool) -> (r: String)
    ensures
        r@ == message(into_computed),
{
    text::cat3(
        "this parameter takes `impl ",
        if into_computed {
            "IntoComputed<EdgeInsets>"
        } else {
            "Into<EdgeInsets>"
        },
        "`; pass the insets directly",
    )
}

fn write_pair(
    hir: &Hir,
    v: usize,
    h: usize,
    texts: &Vec<String>,
    into_computed: bool,
    applicability: Applicability,
) -> (r: (String, Applicability))
    requires
        hir.wf(),
        hir.has(v),
        hir.has(h),
        texts.len() == 2,
        texts@[0]@ == callsite_or_dots(*hir, v),
        texts@[1]@ == callsite_or_dots(*hir, h),
    ensures
        (r.0@, r.1) == pair_text(*hir, v, h, into_computed, applicability),
{
    let local: bool = hir.res_local(v).is_some() || hir.res_local(h).is_some();
    let v_float: bool = unsuffixed_float(hir, v);
    let h_float: bool = unsuffixed_float(hir, h);
    let pin: bool = into_computed && !local && v_float != h_float;
    let first: String = if pin && v_float {
        f32_suffixed(texts[0].as_str())
    } else {
        texts[0].clone()
    };
    let second: String = if pin && h_float {
        f32_suffixed(texts[1].as_str())
    } else {
        texts[1].clone()
    };
    let left: Applicability = if into_computed && local {
        Applicability::MaybeIncorrect
    } else {
        applicability
    };
    (text::cat5("(", first.as_str(), ", ", second.as_str(), ")"), left)
}

/// `arg` sits at an `EdgeInsets`-conversion parameter of `call`: flags the
/// `EdgeInsets::<ctor>(..)` it spells, if it is one.
pub fn check_arg(hir: &Hir, call: usize, arg: usize, into_computed: bool) -> (r: Option<Diagnostic>)
    requires
        hir.wf(),
        hir.has(call),
        hir.has(arg),
    ensures
        diagnostics::found(r) == arg_finding(*hir, call, arg, into_computed),
{
    let span: Span = hir.nodes[arg].span;
    if span.from_expansion() {
        return None;
    }
    proof {
        assert(hir.node_wf(arg));
    }
    let operands: &Vec<usize> = match &hir.nodes[arg].kind {
        Kind::Call { args, .. } => args,
        _ => {
            return None;
        },
    };
    if !are_reusable(hir, operands) {
        return None;
    }
    let guarded: Applicability = diagnostics::comment_guard(
        &hir.nodes[arg].snippet,
        Applicability::MachineApplicable,
    );
    let (texts, applicability) = read_operands(hir, operands, guarded);
    proof {
        let views = operand_texts(*hir, operands@);
        assert forall|i: int| 0 <= i < operands@.len() implies (#[trigger] texts@[i])@
            == callsite_or_dots(*hir, operands@[i]) by {
            assert(text::texts(texts@)[i] == views[i]);
        }
        assert(text::texts(texts@).len() == views.len());
    }
    let message: String = write_message(into_computed);
    if hir.is_call_of(arg, Known::EdgeInsetsAll) && operands.len() == 1 {
        return Some(
            Diagnostic::with_sugg(
                Lint::ManualEdgeInsets,
                span,
                message.as_str(),
                "pass the value directly",
                texts[0].clone(),
                applicability,
            ),
        );
    }
    if hir.is_call_of(arg, Known::EdgeInsetsSymmetric) && operands.len() == 2 {
        let v: usize = operands[0];
        let h: usize = operands[1];
        let v_zero: bool = zero_literal(hir, v);
        if v_zero != zero_literal(hir, h) && hir.resolves_of(call, Known::PaddingWith) {
            if let Kind::MethodCall { name, .. } = &hir.nodes[call].kind {
                let modifier: &str = if v_zero {
                    "padding_horizontal"
                } else {
                    "padding_vertical"
                };
                let kept: String = if v_zero {
                    texts[1].clone()
                } else {
                    texts[0].clone()
                };
                let mut parts: Vec<(Span, String)> = Vec::new();
                parts.push((name.span, modifier.to_owned()));
                parts.push((span, kept));
                proof {
                    assert(diagnostics::part_views(parts@) =~= seq![
                        (name.span, modifier@),
                        (span, kept@),
                    ]);
                }
                let mut finding: Diagnostic = Diagnostic::bare(
                    Lint::ManualEdgeInsets,
                    span,
                    message.as_str(),
                );
                finding.multipart_suggestion(
                    text::cat3("use `", modifier, "`").as_str(),
                    parts,
                    applicability,
                );
                return Some(finding);
            }
        }
        let (pair, left) = write_pair(hir, v, h, &texts, into_computed, applicability);
        return Some(
            Diagnostic::with_sugg(
                Lint::ManualEdgeInsets,
                span,
                message.as_str(),
                "use a `(vertical, horizontal)` pair",
                pair,
                left,
            ),
        );
    }
    if hir.is_call_of(arg, Known::EdgeInsetsNew) && operands.len() == 4 {
        let list: String = text::join(&texts, ", ");
        return Some(
            Diagnostic::with_sugg(
                Lint::ManualEdgeInsets,
                span,
                message.as_str(),
                "use a `[top, bottom, leading, trailing]` array",
                text::cat3("[", list.as_str(), "]"),
                applicability,
            ),
        );
    }
    None
}

/// Some bound is an `EdgeInsets` conversion and every one is verified against:
/// an extra bound (`impl Into<EdgeInsets> + Debug`) could leave the fixed code
/// not compiling.
pub open spec fn insets_param(hir: Hir, bounds: Seq<Bound>) -> bool {
    &&& exists|i: int| 0 <= i < bounds.len() && insets_bound(hir, #[trigger] bounds[i])
    &&& forall|i: int| 0 <= i < bounds.len() ==> verified_bound(hir, #[trigger] bounds[i])
}

/// Some bound is `IntoComputed`.
pub open spec fn computed_param(hir: Hir, bounds: Seq<Bound>) -> bool {
    exists|i: int|
        0 <= i < bounds.len() && hir.is_def((#[trigger] bounds[i]).def, Known::IntoComputedTrait)
}

/// Whether the parameter takes the insets as a conversion, and whether through
/// `IntoComputed`.
fn param_takes_insets(hir: &Hir, bounds: &Vec<Bound>) -> (r: (bool, bool))
    requires
        hir::bounds_below(bounds@, hir.types@.len() as int),
    ensures
        r.0 == insets_param(*hir, bounds@),
        r.1 == computed_param(*hir, bounds@),
{
    let mut any: bool = false;
    let mut all: bool = true;
    let mut computed: bool = false;
    let mut i: usize = 0;
    while i < bounds.len()
        invariant
            i <= bounds.len(),
            hir::bounds_below(bounds@, hir.types@.len() as int),
            any == (exists|k: int| 0 <= k < i && insets_bound(*hir, #[trigger] bounds@[k])),
            all == (forall|k: int| 0 <= k < i ==> verified_bound(*hir, #[trigger] bounds@[k])),
            computed == (exists|k: int|
                0 <= k < i && hir.is_def(
                    (#[trigger] bounds@[k]).def,
                    Known::IntoComputedTrait,
                )),
        decreases bounds.len() - i,
    {
        let bound: Bound = bounds[i];
        if edge_insets_bound(hir, &bound) {
            any = true;
        }
        if !known_bound(hir, &bound) {
            assert(!verified_bound(*hir, bounds@[i as int]));
            all = false;
        }
        if hir.def_path_eq(bound.def, Known::IntoComputedTrait) {
            computed = true;
        }
        i = i + 1;
    }
    (any && all, computed)
}

/// What is said of operand `i` of the call.
pub open spec fn operand_finding(hir: Hir, n: usize, bounds: Seq<Vec<Bound>>, i: int) -> Option<
    DiagnosticView,
> {
    if i < bounds.len() && insets_param(hir, bounds[i]@) {
        arg_finding(hir, n, hir.operands(n)[i], computed_param(hir, bounds[i]@))
    } else {
        None
    }
}

/// What is said of the first `count` operands of the call.
pub open spec fn operand_findings(
    hir: Hir,
    n: usize,
    bounds: Seq<Vec<Bound>>,
    count: int,
) -> Seq<DiagnosticView>
    decreases count,
{
    if count <= 0 {
        seq![]
    } else {
        let before = operand_findings(hir, n, bounds, count - 1);
        match operand_finding(hir, n, bounds, count - 1) {
            Some(finding) => before.push(finding),
            None => before,
        }
    }
}

/// What is said of the expression.
pub open spec fn findings(hir: Hir, n: usize) -> Seq<DiagnosticView> {
    match hir.node(n).bounds {
        Some(bounds) => if hir.node(n).span.expanded() || !hir.is_call(n) {
            seq![]
        } else {
            operand_findings(hir, n, bounds@, hir.operands(n).len() as int)
        },
        None => seq![],
    }
}

fn check_operands(hir: &Hir, n: usize, bounds: &Vec<Vec<Bound>>) -> (r: Vec<Diagnostic>)
    requires
        hir.wf(),
        hir.has(n),
        hir.node(n).bounds == Some(*bounds),
    ensures
        diagnostics::found_all(r@) == operand_findings(
            *hir,
            n,
            bounds@,
            hir.operands(n).len() as int,
        ),
{
    let args: Vec<usize> = hir.call_args(n);
    let mut out: Vec<Diagnostic> = Vec::new();
    let mut i: usize = 0;
    proof {
        assert(hir.node_wf(n));
        let held = hir.node(n).bounds;
        assert(hir::all_bounds_below(held, hir.types@.len() as int));
        assert(held is Some && held->0@ == bounds@);
        assert forall|k: int| 0 <= k < bounds@.len() implies hir::bounds_below(
            (#[trigger] bounds@[k])@,
            hir.types@.len() as int,
        ) by {
            assert(held->0@[k] == bounds@[k]);
        }
        assert(diagnostics::found_all(out@) =~= seq![]);
    }
    while i < args.len()
        invariant
            i <= args.len(),
            hir.wf(),
            hir.has(n),
            args@ == hir.operands(n),
            hir::all_below(args@, n as int),
            forall|k: int|
                0 <= k < bounds@.len() ==> hir::bounds_below(
                    (#[trigger] bounds@[k])@,
                    hir.types@.len() as int,
                ),
            diagnostics::found_all(out@) == operand_findings(*hir, n, bounds@, i as int),
        decreases args.len() - i,
    {
        if i < bounds.len() {
            let (takes, computed) = param_takes_insets(hir, &bounds[i]);
            if takes {
                if let Some(finding) = check_arg(hir, n, args[i], computed) {
                    let ghost before = out@;
                    out.push(finding);
                    proof {
                        assert(diagnostics::found_all(out@) =~= diagnostics::found_all(
                            before,
                        ).push(finding@));
                    }
                }
            }
        }
        i = i + 1;
    }
    out
}

/// Flags `EdgeInsets::all(..)`, `EdgeInsets::symmetric(..)` and
/// `EdgeInsets::new(..)` passed straight to a parameter that takes the insets as
/// a conversion, when every operand is a literal or a path.
pub fn check_expr(hir: &Hir, n: usize) -> (r: Vec<Diagnostic>)
    requires
        hir.wf(),
        hir.has(n),
    ensures
        diagnostics::found_all(r@) == findings(*hir, n),
{
    if hir.nodes[n].span.from_expansion() || !hir.call(n) {
        let none: Vec<Diagnostic> = Vec::new();
        proof {
            assert(diagnostics::found_all(none@) =~= seq![]);
        }
        return none;
    }
    match &hir.nodes[n].bounds {
        Some(bounds) => check_operands(hir, n, bounds),
        None => {
            let none: Vec<Diagnostic> = Vec::new();
            proof {
                assert(diagnostics::found_all(none@) =~= seq![]);
            }
            none
        },
    }
}

/// How insets can be written: one value for all sides, a pair for the vertical
/// and the horizontal ones, all four, or only those of one axis.
pub ghost enum Written {
    One(Seq<char>),
    Pair(Seq<char>, Seq<char>),
    Four(Seq<char>, Seq<char>, Seq<char>, Seq<char>),
    Vertical(Seq<char>),
    Horizontal(Seq<char>),
}

impl Written {
    /// The texts of the top, bottom, leading and trailing insets; nothing for a
    /// side that has none.
    pub open spec fn sides(self) -> Seq<Option<Seq<char>>> {
        match self {
            Written::One(x) => seq![Some(x), Some(x), Some(x), Some(x)],
            Written::Pair(v, h) => seq![Some(v), Some(v), Some(h), Some(h)],
            Written::Four(t, b, l, r) => seq![Some(t), Some(b), Some(l), Some(r)],
            Written::Vertical(v) => seq![Some(v), Some(v), None, None],
            Written::Horizontal(h) => seq![None, None, Some(h), Some(h)],
        }
    }
}

/// The operands that a call of an `EdgeInsets` constructor gives the top, bottom,
/// leading and trailing insets.
pub open spec fn sides_of(hir: Hir, arg: usize) -> Option<Seq<usize>> {
    match hir.kind(arg) {
        Kind::Call { func: _, args } => if hir.calls_item(arg, Known::EdgeInsetsAll) && args@.len()
            == 1 {
            Some(seq![args@[0], args@[0], args@[0], args@[0]])
        } else if hir.calls_item(arg, Known::EdgeInsetsSymmetric) && args@.len() == 2 {
            Some(seq![args@[0], args@[0], args@[1], args@[1]])
        } else if hir.calls_item(arg, Known::EdgeInsetsNew) && args@.len() == 4 {
            Some(args@)
        } else {
            None
        },
        _ => None,
    }
}

/// The text stands for the operand: its source, with the type written out or not;
/// and no text at all stands for a zero.
pub open spec fn same_side(hir: Hir, n: usize, text: Option<Seq<char>>) -> bool {
    match text {
        Some(text) => {
            let source = callsite_or_dots(hir, n);
            ||| text == source
            ||| text == source + "f32"@
            ||| source.len() > 0 && source.last() == '.' && text == source + "0f32"@
        },
        None => hir.kind(n) matches Kind::Lit { lit } && match lit {
            Lit::Int { value, suffixed: _ } => value == 0,
            Lit::Float { digits, zero: _, suffixed: _ } => digits@ == "0.0"@,
            _ => false,
        },
    }
}

/// The insets are the same on every side.
pub open spec fn same_insets(hir: Hir, sides: Seq<usize>, written: Written) -> bool {
    &&& sides.len() == 4
    &&& same_side(hir, sides[0], written.sides()[0])
    &&& same_side(hir, sides[1], written.sides()[1])
    &&& same_side(hir, sides[2], written.sides()[2])
    &&& same_side(hir, sides[3], written.sides()[3])
}

/// The remark puts the insets in place of the argument; those of one axis by way
/// of the method for that axis.
pub open spec fn puts(hir: Hir, call: usize, arg: usize, remark: RemarkView, written: Written) -> bool {
    let place = hir.node(arg).span;
    match (written, remark) {
        (Written::One(x), RemarkView::Suggestion { label: _, span, code, applicability: _ }) => span
            == place && code == x,
        (Written::Pair(v, h), RemarkView::Suggestion { label: _, span, code, applicability: _ }) =>
        span == place && code == "("@ + v + ", "@ + h + ")"@,
        (
            Written::Four(t, b, l, r),
            RemarkView::Suggestion { label: _, span, code, applicability: _ },
        ) => span == place && code == "["@ + t + ", "@ + b + ", "@ + l + ", "@ + r + "]"@,
        (Written::Vertical(v), RemarkView::Multipart { label: _, parts, applicability: _ }) => hir.kind(
            call,
        ) matches Kind::MethodCall { name, receiver: _, args: _ } && parts == seq![
            (name.span, "padding_vertical"@),
            (place, v),
        ],
        (Written::Horizontal(h), RemarkView::Multipart { label: _, parts, applicability: _ }) => hir.kind(
            call,
        ) matches Kind::MethodCall { name, receiver: _, args: _ } && parts == seq![
            (name.span, "padding_horizontal"@),
            (place, h),
        ],
        _ => false,
    }
}

proof fn lemma_pair_part(hir: Hir, n: usize, pin: bool)
    ensures
        same_side(hir, n, Some(pair_part(hir, n, pin))),
{
    reveal_strlit(".0f32");
    reveal_strlit("0f32");
    let source = callsite_or_dots(hir, n);
    if source.len() > 0 && source.last() == '.' {
        assert(source.drop_last() + ".0f32"@ =~= source + "0f32"@);
    }
}

/// What is proposed in place of an `EdgeInsets` value makes the same insets on
/// every side.
pub proof fn proposed_insets_are_the_same(
    hir: Hir,
    call: usize,
    arg: usize,
    into_computed: bool,
) -> (written: Written)
    requires
        arg_finding(hir, call, arg, into_computed) is Some,
    ensures
        sides_of(hir, arg) matches Some(sides) && same_insets(hir, sides, written),
        ({
            let finding = arg_finding(hir, call, arg, into_computed)->0;
            finding.span == hir.node(arg).span && finding.remarks.len() == 1 && puts(
                hir,
                call,
                arg,
                finding.remarks[0],
                written,
            )
        }),
{
    match hir.kind(arg) {
        Kind::Call { func: _, args } => {
            let operands = args@;
            let finding = arg_finding(hir, call, arg, into_computed)->0;
            if hir.calls_item(arg, Known::EdgeInsetsAll) && operands.len() == 1 {
                Written::One(callsite_or_dots(hir, operands[0]))
            } else if hir.calls_item(arg, Known::EdgeInsetsSymmetric) && operands.len() == 2 {
                let (v, h) = (operands[0], operands[1]);
                if is_zero(hir, v) != is_zero(hir, h) && method_span(hir, call) is Some
                    && hir.resolves_item(call, Known::PaddingWith) {
                    if is_zero(hir, v) {
                        Written::Horizontal(callsite_or_dots(hir, h))
                    } else {
                        Written::Vertical(callsite_or_dots(hir, v))
                    }
                } else {
                    let local = hir.local(v) is Some || hir.local(h) is Some;
                    let pin = into_computed && !local && floats(hir, v) != floats(hir, h);
                    lemma_pair_part(hir, v, pin);
                    lemma_pair_part(hir, h, pin);
                    Written::Pair(pair_part(hir, v, pin), pair_part(hir, h, pin))
                }
            } else {
                let texts = operand_texts(hir, operands);
                let (t, b, l, r) = (
                    callsite_or_dots(hir, operands[0]),
                    callsite_or_dots(hir, operands[1]),
                    callsite_or_dots(hir, operands[2]),
                    callsite_or_dots(hir, operands[3]),
                );
                reveal_with_fuel(text::joined, 4);
                let three = texts.drop_last();
                let two = three.drop_last();
                let one = two.drop_last();
                assert(one.len() == 1 && one[0] == t);
                assert(two.last() == b && three.last() == l && texts.last() == r);
                let list = text::joined(texts, ", "@);
                assert(list == t + ", "@ + b + ", "@ + l + ", "@ + r);
                assert("["@ + list + "]"@ =~= "["@ + t + ", "@ + b + ", "@ + l + ", "@ + r + "]"@);
                Written::Four(t, b, l, r)
            }
        },
        _ => Written::One(seq![]),
    }
}

} // verus!
