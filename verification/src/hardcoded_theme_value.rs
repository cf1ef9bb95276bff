//! `hardcoded_theme_value`: a literal color or font size in view code instead of a
//! theme token.

use crate::diagnostics;
use crate::diagnostics::{Diagnostic, DiagnosticView};
use crate::hir;
use crate::hir::{Hir, ItemKind, Kind, RetTy, Span, UnOp};
use crate::known::Known;
use crate::lint::Lint;
use vstd::prelude::*;

verus! {

/// The literal color constructors.
pub open spec fn color_ctors() -> Seq<Known> {
    seq![
        Known::ColorSrgb,
        Known::ColorSrgbF32,
        Known::ColorSrgbHex,
        Known::ColorSrgbU32,
        Known::ColorP3,
        Known::ColorOklch,
        Known::SrgbNew,
        Known::SrgbNewU8,
        Known::SrgbFromHex,
        Known::SrgbFromU32,
    ]
}

/// The literal font-size setters.
pub open spec fn size_setters() -> Seq<Known> {
    seq![Known::TextSize, Known::FontSize, Known::StyledSize]
}

/// The expression is a literal, maybe negated.
pub open spec fn literal(hir: Hir, n: usize) -> bool
    decreases n,
{
    match hir.kind(n) {
        Kind::Lit { .. } => true,
        Kind::Unary { op: UnOp::Neg, operand } => operand < n && literal(hir, operand),
        Kind::DropTemps { inner } => inner < n && literal(hir, inner),
        _ => false,
    }
}

/// Whether the expression is a literal, with unary minus allowed.
pub fn is_literal(hir: &Hir, n: usize) -> (r: bool)
    requires
        hir.wf(),
        hir.has(n),
    ensures
        r == literal(*hir, n),
    decreases n,
{
    proof {
        assert(hir.node_wf(n));
    }
    match &hir.nodes[n].kind {
        Kind::Lit { .. } => true,
        Kind::Unary { op: UnOp::Neg, operand } => is_literal(hir, *operand),
        Kind::DropTemps { inner } => is_literal(hir, *inner),
        _ => false,
    }
}

/// The function declares `-> impl View`.
pub open spec fn declares_view(hir: Hir, n: usize) -> bool {
    match hir.node(n).ret {
        Some(RetTy::Opaque { bounds }) => exists|i: int|
            0 <= i < bounds@.len() && hir.is_def(#[trigger] bounds@[i], Known::ViewTrait),
        _ => false,
    }
}

/// Whether the function declares `-> impl` with a bound on `View`.
pub fn returns_impl_view(hir: &Hir, n: usize) -> (r: bool)
    requires
        hir.has(n),
    ensures
        r == declares_view(*hir, n),
{
    match &hir.nodes[n].ret {
        Some(RetTy::Opaque { bounds }) => names_view(hir, bounds),
        _ => false,
    }
}

fn names_view(hir: &Hir, bounds: &Vec<usize>) -> (r: bool)
    ensures
        r == (exists|i: int|
            0 <= i < bounds@.len() && hir.is_def(#[trigger] bounds@[i], Known::ViewTrait)),
{
    let mut i: usize = 0;
    while i < bounds.len()
        invariant
            i <= bounds.len(),
            forall|k: int| 0 <= k < i ==> !hir.is_def(#[trigger] bounds@[k], Known::ViewTrait),
        decreases bounds.len() - i,
    {
        if hir.def_path_eq(bounds[i], Known::ViewTrait) {
            assert(hir.is_def(bounds@[i as int], Known::ViewTrait));
            return true;
        }
        i = i + 1;
    }
    false
}

/// The nearest item around the expression is view code.
pub open spec fn view_code(hir: Hir, n: usize) -> bool
    decreases hir.nodes@.len() - n,
{
    match hir.up(n) {
        Some(p) => match hir.kind(p) {
            Kind::Item { item: ItemKind::Fn { name: _ }, params: _, body: _ } => declares_view(
                hir,
                p,
            ),
            Kind::Item { .. } => false,
            Kind::ImplItem { .. } => declares_view(hir, p) || hir.names_item(
                p,
                Known::ViewBody,
            ),
            Kind::TraitItem { .. } => declares_view(hir, p),
            Kind::ForeignItem => false,
            _ => view_code(hir, p),
        },
        None => false,
    }
}

/// Whether the expression sits inside view code: the nearest enclosing item is a
/// function or method declaring `-> impl View`, or the `body` method of an `impl
/// View for _`. Nested closures count as their enclosing item; a non-function item
/// (a `const` initializer, a nested `fn` of its own) closes the scope.
pub fn in_view_code(hir: &Hir, n: usize) -> (r: bool)
    requires
        hir.wf(),
        hir.has(n),
    ensures
        r == view_code(*hir, n),
    decreases hir.nodes.len() - n,
{
    let p: usize = match hir.parent(n) {
        Some(p) => p,
        None => {
            return false;
        },
    };
    match &hir.nodes[p].kind {
        Kind::Item { item: ItemKind::Fn { .. }, .. } => returns_impl_view(hir, p),
        Kind::Item { .. } => false,
        Kind::ImplItem { .. } => returns_impl_view(hir, p) || hir.is_item(p, Known::ViewBody),
        Kind::TraitItem { .. } => returns_impl_view(hir, p),
        Kind::ForeignItem => false,
        _ => in_view_code(hir, p),
    }
}

/// The arguments of a call, its receiver aside.
pub open spec fn plain_args(hir: Hir, n: usize) -> Seq<usize> {
    match hir.kind(n) {
        Kind::Call { func: _, args } => args@,
        Kind::MethodCall { name: _, receiver: _, args } => args@,
        _ => seq![],
    }
}

/// Every argument is a literal.
pub open spec fn all_literal(hir: Hir, args: Seq<usize>) -> bool {
    forall|i: int| 0 <= i < args.len() ==> literal(hir, #[trigger] args[i])
}

fn are_literal(hir: &Hir, args: &Vec<usize>) -> (r: bool)
    requires
        hir.wf(),
        hir::all_below(args@, hir.nodes@.len() as int),
    ensures
        r == all_literal(*hir, args@),
{
    let mut i: usize = 0;
    while i < args.len()
        invariant
            i <= args.len(),
            hir.wf(),
            hir::all_below(args@, hir.nodes@.len() as int),
            forall|k: int| 0 <= k < i ==> literal(*hir, #[trigger] args@[k]),
        decreases args.len() - i,
    {
        if !is_literal(hir, args[i]) {
            assert(!literal(*hir, args@[i as int]));
            return false;
        }
        i = i + 1;
    }
    true
}

/// Where the offense is: a method call's span covers its receiver, so there it is
/// the tail.
pub open spec fn offense(hir: Hir, n: usize) -> Span {
    match hir.kind(n) {
        Kind::MethodCall { name: _, receiver, args: _ } => hir.node(n).span.from_lo(
            hir.node(receiver).span.hi,
        ),
        _ => hir.node(n).span,
    }
}

/// What is said of an expression.
pub open spec fn finding_at(hir: Hir, n: usize) -> Option<DiagnosticView> {
    if hir.node(n).span.expanded() || !all_literal(hir, plain_args(hir, n)) || !view_code(hir, n) {
        None
    } else if hir.calls(n, color_ctors()) {
        Some(
            DiagnosticView::with_help(
                Lint::HardcodedThemeValue,
                offense(hir, n),
                "a literal color in view code does not adapt to the color scheme"@,
                "use a theme token \u{2014} `ForegroundColor`, `BackgroundColor`, `SurfaceColor`, `AccentColor`, `MutedForegroundColor` from `waterui::graphics::color` \u{2014} or lift a brand color to a named constant"@,
            ),
        )
    } else if hir.calls(n, size_setters()) {
        Some(
            DiagnosticView::with_help(
                Lint::HardcodedThemeValue,
                offense(hir, n),
                "a literal font size in view code does not follow the typography scale"@,
                "use a semantic font \u{2014} `.font(Title)`, `.font(Body)`, `.font(Caption)`, `.font(Headline)`, `.font(Footnote)` from `waterui::text::font`"@,
            ),
        )
    } else {
        None
    }
}

/// Flags literal-valued color constructors and literal font-size setters inside a
/// function returning `impl View` or a `View::body` method. Every argument of the
/// call must be a literal; the receiver of a method call is the object being
/// styled, not an argument.
pub fn check_expr(hir: &Hir, n: usize) -> (r: Option<Diagnostic>)
    requires
        hir.wf(),
        hir.has(n),
    ensures
        diagnostics::found(r) == finding_at(*hir, n),
{
    if hir.nodes[n].span.from_expansion() {
        return None;
    }
    proof {
        assert(hir.node_wf(n));
    }
    let ctors = [
        Known::ColorSrgb,
        Known::ColorSrgbF32,
        Known::ColorSrgbHex,
        Known::ColorSrgbU32,
        Known::ColorP3,
        Known::ColorOklch,
        Known::SrgbNew,
        Known::SrgbNewU8,
        Known::SrgbFromHex,
        Known::SrgbFromU32,
    ];
    let setters = [Known::TextSize, Known::FontSize, Known::StyledSize];
    proof {
        assert(ctors@ =~= color_ctors());
        assert(setters@ =~= size_setters());
    }
    let color: bool = hir.is_call_to(n, &ctors);
    if !color && !hir.is_call_to(n, &setters) {
        return None;
    }
    let (args, span): (&Vec<usize>, Span) = match &hir.nodes[n].kind {
        Kind::Call { args, .. } => (args, hir.nodes[n].span),
        Kind::MethodCall { receiver, args, .. } => (
            args,
            hir.nodes[n].span.with_lo(hir.nodes[*receiver].span.hi),
        ),
        _ => {
            return None;
        },
    };
    if !are_literal(hir, args) || !in_view_code(hir, n) {
        return None;
    }
    if color {
        Some(
            Diagnostic::with_help(
                Lint::HardcodedThemeValue,
                span,
                "a literal color in view code does not adapt to the color scheme",
                "use a theme token \u{2014} `ForegroundColor`, `BackgroundColor`, `SurfaceColor`, `AccentColor`, `MutedForegroundColor` from `waterui::graphics::color` \u{2014} or lift a brand color to a named constant".to_owned(),
            ),
        )
    } else {
        Some(
            Diagnostic::with_help(
                Lint::HardcodedThemeValue,
                span,
                "a literal font size in view code does not follow the typography scale",
                "use a semantic font \u{2014} `.font(Title)`, `.font(Body)`, `.font(Caption)`, `.font(Headline)`, `.font(Footnote)` from `waterui::text::font`".to_owned(),
            ),
        )
    }
}

/// A number with a sign or without is a literal; a name or a call is not.
pub proof fn signed_numbers_are_literals(hir: Hir, n: usize, operand: usize)
    ensures
        hir.kind(n) is Lit ==> literal(hir, n),
        hir.kind(n) == (Kind::Unary { op: UnOp::Neg, operand }) && operand < n && hir.kind(
            operand,
        ) is Lit ==> literal(hir, n),
        hir.kind(n) is Path || hir.kind(n) is Call || hir.kind(n) is MethodCall || hir.kind(
            n,
        ) is Binary ==> !literal(hir, n),
{
    reveal_with_fuel(literal, 2);
}

/// A value is hard-coded where a colour or a font size is made in view code of
/// literals alone; one operand that is no literal is enough to leave it alone.
pub proof fn hardcoded_values_are_literal(hir: Hir, n: usize, i: int)
    ensures
        0 <= i < plain_args(hir, n).len() && !literal(hir, plain_args(hir, n)[i]) ==> finding_at(
            hir,
            n,
        ) is None,
        finding_at(hir, n) is Some ==> view_code(hir, n) && !hir.node(n).span.expanded() && (
        hir.calls(n, color_ctors()) || hir.calls(n, size_setters())),
        (forall|k: int| 0 <= k < plain_args(hir, n).len() ==> literal(
            hir,
            #[trigger] plain_args(hir, n)[k],
        )) && view_code(hir, n) && !hir.node(n).span.expanded() && (hir.calls(n, color_ctors())
            || hir.calls(n, size_setters())) ==> finding_at(hir, n) is Some,
        hir.kind(n) matches Kind::MethodCall { name: _, receiver, args } ==> plain_args(hir, n)
            == args@ && offense(hir, n) == hir.node(n).span.from_lo(hir.node(receiver).span.hi),
{
}

/// View code is the body of a function that returns `impl View` or of
/// `View::body`; the nearest function around a value decides.
pub proof fn nearest_function_decides(hir: Hir, n: usize, p: usize)
    requires
        hir.up(n) == Some(p),
    ensures
        hir.kind(p) is ImplItem && hir.names_item(p, Known::ViewBody) ==> view_code(hir, n),
        !(hir.kind(p) is Item) && !(hir.kind(p) is ImplItem) && !(hir.kind(p) is TraitItem) && !(
        hir.kind(p) is ForeignItem) ==> view_code(hir, n) == view_code(hir, p),
        hir.kind(p) is TraitItem ==> view_code(hir, n) == declares_view(hir, p),
{
}

} // verus!
