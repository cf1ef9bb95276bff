//! `manual_color_erasure`'s firing predicate, shared with
//! `literal_color_components`: which parameter bounds take a colorspace value
//! directly, the analysis that decides whether an expression is a hand-written
//! erasure, and the `let`-local use scan behind its `check_local`.

use crate::anyview;
use crate::hir;
use crate::hir::{Bound, Hir, Kind, Lit, Method, Span, TraitCall, Ty, TyKind};
use crate::known::Known;
use crate::text;
use vstd::prelude::*;

verus! {

/// What a flagged expression rewrites to.
#[derive(Debug)]
pub enum Replacement {
    /// `Color::<ctor>(..)`: the callee path is replaced with `<Srgb|P3>::<fn>`;
    /// the colorspace type may need importing.
    Ctor {
        /// The callee path: the suggestion's replacement site.
        replace: Span,
        /// `Srgb` or `P3`.
        ty_name: &'static str,
        /// The constructor on the colorspace type.
        fn_name: &'static str,
        /// The colorspace type's definition.
        def: usize,
        /// The rewritten expression's type.
        ty: usize,
    },
    /// `e.into()`, `Into::into(e)`, `Color::from(e)`, `Color::new(e)`: the whole
    /// expression is replaced by `e`'s source.
    Inner {
        /// `e`'s source, in parentheses where the rewrite needs them.
        text: String,
        /// `e`'s type: what the rewritten expression evaluates to.
        ty: usize,
    },
}

pub ghost enum ReplacementView {
    Ctor { replace: Span, ty_name: Seq<char>, fn_name: Seq<char>, def: usize, ty: usize },
    Inner { text: Seq<char>, ty: usize },
}

impl View for Replacement {
    type V = ReplacementView;

    open spec fn view(&self) -> ReplacementView {
        match *self {
            Replacement::Ctor { replace, ty_name, fn_name, def, ty } => ReplacementView::Ctor {
                replace,
                ty_name: ty_name@,
                fn_name: fn_name@,
                def,
                ty,
            },
            Replacement::Inner { text, ty } => ReplacementView::Inner { text: text@, ty },
        }
    }
}

impl ReplacementView {
    /// The type the rewritten expression evaluates to.
    pub open spec fn result(self) -> usize {
        match self {
            ReplacementView::Ctor { replace: _, ty_name: _, fn_name: _, def: _, ty } => ty,
            ReplacementView::Inner { text: _, ty } => ty,
        }
    }
}

impl Replacement {
    /// The type the rewritten expression evaluates to: the colorspace type for a
    /// constructor, the unwrapped value's type otherwise.
    pub fn ty(&self) -> (r: usize)
        ensures
            r == self@.result(),
    {
        match self {
            Replacement::Ctor { ty, .. } | Replacement::Inner { ty, .. } => *ty,
        }
    }
}

/// A flagged manual erasure: the span the diagnostic underlines plus the rewrite
/// it suggests.
#[derive(Debug)]
pub struct Flag {
    /// The flagged expression: `Color::srgb_f32(..)` or `e.into()`; the whole
    /// chain when it ends in a `.into()` the rewrite drops.
    pub span: Span,
    pub repl: Replacement,
    /// Spans the suggestion erases: a trailing `.into()` or an
    /// `Into::into(..)`/`Color::from(..)` wrapper around the flagged expression.
    /// The colorspace value satisfies the parameter bound directly, and
    /// `Srgb::new(..).into()` could not infer its target.
    pub erased: Vec<Span>,
}

pub ghost struct FlagView {
    pub span: Span,
    pub repl: ReplacementView,
    pub erased: Seq<Span>,
}

impl View for Flag {
    type V = FlagView;

    open spec fn view(&self) -> FlagView {
        FlagView { span: self.span, repl: self.repl@, erased: self.erased@ }
    }
}

/// The color types, by definition and by type.
#[derive(Clone, Copy, Debug, PartialEq, Eq, Structural)]
pub struct Defs {
    /// `waterui_graphics::color::Srgb`.
    pub srgb: usize,
    pub srgb_ty: usize,
    /// `waterui_graphics::color::P3`.
    pub p3: usize,
    pub p3_ty: usize,
}

impl Defs {
    pub open spec fn wf(self, hir: Hir) -> bool {
        self.srgb_ty < hir.types@.len() && self.p3_ty < hir.types@.len()
    }
}

impl Ty {
    /// The type meets the trait with these arguments.
    pub open spec fn meets_with(self, def: usize, args: Seq<usize>) -> bool {
        exists|i: int|
            0 <= i < self.meets@.len() && (#[trigger] self.meets@[i]).def == def
                && self.meets@[i].args@ == args
    }

    /// Whether the type meets the trait with these arguments.
    pub fn meets_trait(&self, def: usize, args: &Vec<usize>) -> (r: bool)
        ensures
            r == self.meets_with(def, args@),
    {
        let mut i: usize = 0;
        while i < self.meets.len()
            invariant
                i <= self.meets.len(),
                forall|k: int|
                    0 <= k < i ==> !((#[trigger] self.meets@[k]).def == def
                        && self.meets@[k].args@ == args@),
            decreases self.meets.len() - i,
        {
            if self.meets[i].def == def && crate::ty::same_ids(&self.meets[i].args, args) {
                return true;
            }
            i = i + 1;
        }
        false
    }

    /// The type meets the bound.
    pub open spec fn meets_bound(self, bound: Bound) -> bool {
        self.meets_with(bound.def, hir::opt_seq(bound.arg))
    }

    /// Whether the type meets the bound.
    pub fn meets(&self, bound: Bound) -> (r: bool)
        ensures
            r == self.meets_bound(bound),
    {
        let mut args: Vec<usize> = Vec::new();
        if let Some(arg) = bound.arg {
            args.push(arg);
        }
        proof {
            assert(args@ =~= hir::opt_seq(bound.arg));
        }
        self.meets_trait(bound.def, &args)
    }
}

/// A literal that can be typed `param`.
pub open spec fn fits_as(hir: Hir, n: usize, param: usize) -> bool {
    let kind = hir.ty(param).kind;
    match hir.kind(n) {
        Kind::Lit { lit } => match lit {
            Lit::Float { digits: _, zero: _, suffixed } => if suffixed {
                param == hir.node(n).ty
            } else {
                kind is Float
            },
            Lit::Int { value: _, suffixed } => if suffixed {
                param == hir.node(n).ty
            } else {
                kind is Int || kind is Uint
            },
            Lit::Bool(_) => kind is Bool,
            Lit::Char(_) => kind is Char,
            Lit::Str(_) => hir.ty(hir.referent(param)).kind is Str,
            _ => false,
        },
        _ => false,
    }
}

/// Whether the expression is a literal that can be typed `param`: an unsuffixed
/// literal's inferred type at the original call (`0.5` as `f64`) may differ from
/// the rewritten method's declared parameter (`f32`); retyping it is exactly
/// what inference does. A suffix pins the type, which is then the literal's own.
pub fn literal_fits(hir: &Hir, n: usize, param: usize) -> (r: bool)
    requires
        hir.wf(),
        hir.has(n),
        param < hir.types.len(),
    ensures
        r == fits_as(*hir, n, param),
{
    match &hir.nodes[n].kind {
        Kind::Lit { lit } => match lit {
            Lit::Float { suffixed, .. } => if *suffixed {
                param == hir.nodes[n].ty
            } else {
                match &hir.types[param].kind {
                    TyKind::Float { .. } => true,
                    _ => false,
                }
            },
            Lit::Int { suffixed, .. } => if *suffixed {
                param == hir.nodes[n].ty
            } else {
                match &hir.types[param].kind {
                    TyKind::Int { .. } | TyKind::Uint { .. } => true,
                    _ => false,
                }
            },
            Lit::Bool(_) => match &hir.types[param].kind {
                TyKind::Bool => true,
                _ => false,
            },
            Lit::Char(_) => match &hir.types[param].kind {
                TyKind::Char => true,
                _ => false,
            },
            Lit::Str(_) => match &hir.types[hir.peel_refs(param)].kind {
                TyKind::Str => true,
                _ => false,
            },
            _ => false,
        },
        _ => false,
    }
}

/// An `Into<Color>` or `IntoBackground` bound.
pub open spec fn takes_color(hir: Hir, bound: Bound) -> bool {
    hir.is_def(bound.def, Known::IntoBackground) || (hir.is_def(bound.def, Known::IntoTrait)
        && bound.arg is Some && hir.ty_is(bound.arg->0, Known::Color))
}

/// Whether the bound is `Into<Color>` or `IntoBackground`: a parameter position
/// that takes a colorspace value directly.
pub fn color_bound(hir: &Hir, bound: Bound) -> (r: bool)
    requires
        hir::opt_below(bound.arg, hir.types@.len() as int),
    ensures
        r == takes_color(*hir, bound),
{
    if hir.def_path_eq(bound.def, Known::IntoBackground) {
        return true;
    }
    match bound.arg {
        Some(arg) => hir.def_path_eq(bound.def, Known::IntoTrait) && hir.is_adt(arg, Known::Color),
        None => false,
    }
}

/// A bound of the color table, or `Sized`.
pub open spec fn color_or_sized(hir: Hir, bound: Bound) -> bool {
    takes_color(hir, bound) || hir.is_def(bound.def, Known::SizedTrait)
}

/// Whether the bound is one the color table knows, or `Sized`, which every
/// parameter carries.
pub fn known_bound(hir: &Hir, bound: Bound) -> (r: bool)
    requires
        hir::opt_below(bound.arg, hir.types@.len() as int),
    ensures
        r == color_or_sized(*hir, bound),
{
    color_bound(hir, bound) || hir.def_path_eq(bound.def, Known::SizedTrait)
}

/// Some bound takes a color, and every one is known.
pub open spec fn color_param(hir: Hir, bounds: Seq<Bound>) -> bool {
    &&& exists|i: int| 0 <= i < bounds.len() && takes_color(hir, #[trigger] bounds[i])
    &&& forall|i: int| 0 <= i < bounds.len() ==> color_or_sized(hir, #[trigger] bounds[i])
}

/// Whether the parameter takes a color and carries no bound outside the color
/// table.
pub fn is_color_param(hir: &Hir, bounds: &Vec<Bound>) -> (r: bool)
    requires
        hir::bounds_below(bounds@, hir.types@.len() as int),
    ensures
        r == color_param(*hir, bounds@),
{
    let mut any: bool = false;
    let mut i: usize = 0;
    while i < bounds.len()
        invariant
            i <= bounds.len(),
            hir::bounds_below(bounds@, hir.types@.len() as int),
            any == (exists|k: int| 0 <= k < i && takes_color(*hir, #[trigger] bounds@[k])),
            forall|k: int| 0 <= k < i ==> color_or_sized(*hir, #[trigger] bounds@[k]),
        decreases bounds.len() - i,
    {
        let bound: Bound = bounds[i];
        if !known_bound(hir, bound) {
            assert(!color_or_sized(*hir, bounds@[i as int]));
            return false;
        }
        if color_bound(hir, bound) {
            any = true;
        }
        i = i + 1;
    }
    any
}

/// Some bound is `IntoBackground`.
pub open spec fn takes_background(hir: Hir, bounds: Seq<Bound>) -> bool {
    exists|i: int|
        0 <= i < bounds.len() && hir.is_def((#[trigger] bounds[i]).def, Known::IntoBackground)
}

/// The bound the diagnostic names.
pub open spec fn bound_text(hir: Hir, bounds: Seq<Bound>) -> Seq<char> {
    if takes_background(hir, bounds) {
        "IntoBackground"@
    } else {
        "Into<Color>"@
    }
}

/// `Into<Color>` or `IntoBackground`: the bound the diagnostic names.
pub fn bound_name(hir: &Hir, bounds: &Vec<Bound>) -> (r: &'static str)
    ensures
        r@ == bound_text(*hir, bounds@),
{
    let mut i: usize = 0;
    while i < bounds.len()
        invariant
            i <= bounds.len(),
            forall|k: int|
                0 <= k < i ==> !hir.is_def((#[trigger] bounds@[k]).def, Known::IntoBackground),
        decreases bounds.len() - i,
    {
        if hir.def_path_eq(bounds[i].def, Known::IntoBackground) {
            assert(hir.is_def(bounds@[i as int].def, Known::IntoBackground));
            return "IntoBackground";
        }
        i = i + 1;
    }
    "Into<Color>"
}

/// The type is a colorspace value: it resolves to `ResolvedColor`.
pub open spec fn resolves_to_color(hir: Hir, t: usize) -> bool {
    &&& !hir.ty(t).has_infer
    &&& hir.ty(t).implements(crate::hir::Trait::Resolvable, seq![])
    &&& hir.ty(t).resolved matches Some(def)
    &&& hir.is_def(def, Known::ResolvedColor)
}

/// Whether the type is `Resolvable<Resolved = ResolvedColor>`: the wrapped value
/// must already be a colorspace value.
pub fn resolvable_color(hir: &Hir, t: usize) -> (r: bool)
    requires
        t < hir.types.len(),
    ensures
        r == resolves_to_color(*hir, t),
{
    let ty: &Ty = &hir.types[t];
    if ty.has_infer || !ty.implements_trait(crate::hir::Trait::Resolvable) {
        return false;
    }
    match ty.resolved {
        Some(def) => hir.def_path_eq(def, Known::ResolvedColor),
        None => false,
    }
}

/// The type meets every color bound among `bounds`.
pub open spec fn passes(hir: Hir, t: usize, bounds: Seq<Bound>) -> bool {
    &&& !hir.ty(t).has_infer
    &&& forall|i: int|
        0 <= i < bounds.len() && takes_color(hir, #[trigger] bounds[i]) ==> hir.ty(t).meets_bound(
            bounds[i],
        )
}

/// Whether the type satisfies every color bound the parameter carries: the
/// rewritten argument must type-check where the `Color` did.
pub fn satisfies(hir: &Hir, t: usize, bounds: &Vec<Bound>) -> (r: bool)
    requires
        t < hir.types.len(),
        hir::bounds_below(bounds@, hir.types@.len() as int),
    ensures
        r == passes(*hir, t, bounds@),
{
    if hir.types[t].has_infer {
        return false;
    }
    let mut i: usize = 0;
    while i < bounds.len()
        invariant
            i <= bounds.len(),
            t < hir.types.len(),
            hir::bounds_below(bounds@, hir.types@.len() as int),
            forall|k: int|
                0 <= k < i && takes_color(*hir, #[trigger] bounds@[k]) ==> hir.ty(t).meets_bound(
                    bounds@[k],
                ),
        decreases bounds.len() - i,
    {
        if color_bound(hir, bounds[i]) && !hir.types[t].meets(bounds[i]) {
            assert(takes_color(*hir, bounds@[i as int]));
            return false;
        }
        i = i + 1;
    }
    true
}

/// `Into::into(e)`, `Color::from(e)` or `Color::new(e)`.
pub open spec fn wraps_color(hir: Hir, n: usize) -> Option<usize> {
    match hir.kind(n) {
        Kind::Call { func: _, args } => if args@.len() == 1 && (hir.resolves_item(
            n,
            Known::ColorNew,
        ) || hir.resolves_item(n, Known::Into) || (hir.resolves_item(n, Known::From) && hir.ty_is(
            hir.node(n).ty,
            Known::Color,
        ))) {
            Some(args@[0])
        } else {
            None
        },
        _ => None,
    }
}

/// What the call wraps, where it is `Into::into(e)`, `Color::from(e)` or
/// `Color::new(e)`: a conversion wrapper that is manual erasure when `e` is a
/// colorspace value.
pub fn is_color_wrapper(hir: &Hir, n: usize) -> (r: Option<usize>)
    requires
        hir.wf(),
        hir.has(n),
    ensures
        r == wraps_color(*hir, n),
        r matches Some(inner) ==> inner < n,
{
    proof {
        assert(hir.node_wf(n));
    }
    match &hir.nodes[n].kind {
        Kind::Call { args, .. } => if args.len() == 1 && (hir.resolves_of(n, Known::ColorNew)
            || hir.resolves_of(n, Known::Into) || (hir.resolves_of(n, Known::From) && hir.is_adt(
            hir.nodes[n].ty,
            Known::Color,
        ))) {
            Some(args[0])
        } else {
            None
        },
        _ => None,
    }
}

/// A `.into()` call.
pub open spec fn is_into_call(hir: Hir, n: usize) -> bool {
    hir.kind(n) is MethodCall && hir.resolves_item(n, Known::Into)
}

/// Whether the expression is a `.into()` call.
pub fn is_into(hir: &Hir, n: usize) -> (r: bool)
    requires
        hir.has(n),
    ensures
        r == is_into_call(*hir, n),
{
    match &hir.nodes[n].kind {
        Kind::MethodCall { .. } => hir.resolves_of(n, Known::Into),
        _ => false,
    }
}

/// The rewrite of a `Color` constructor: the colorspace type is `P3` or `Srgb`,
/// and the constructor on it.
pub open spec fn ctor_rewrite(hir: Hir, n: usize) -> Option<(bool, Seq<char>)> {
    if hir.resolves_item(n, Known::ColorSrgbF32) {
        Some((false, "new"@))
    } else if hir.resolves_item(n, Known::ColorSrgb) {
        Some((false, "new_u8"@))
    } else if hir.resolves_item(n, Known::ColorSrgbHex) {
        Some((false, "from_hex"@))
    } else if hir.resolves_item(n, Known::ColorSrgbU32) {
        Some((false, "from_u32"@))
    } else if hir.resolves_item(n, Known::ColorP3) {
        Some((true, "new"@))
    } else {
        None
    }
}

fn ctor_row(hir: &Hir, n: usize) -> (r: Option<(bool, &'static str)>)
    requires
        hir.has(n),
    ensures
        match r {
            Some((p3, fn_name)) => ctor_rewrite(*hir, n) == Some((p3, fn_name@)),
            None => ctor_rewrite(*hir, n) is None,
        },
{
    if hir.resolves_of(n, Known::ColorSrgbF32) {
        Some((false, "new"))
    } else if hir.resolves_of(n, Known::ColorSrgb) {
        Some((false, "new_u8"))
    } else if hir.resolves_of(n, Known::ColorSrgbHex) {
        Some((false, "from_hex"))
    } else if hir.resolves_of(n, Known::ColorSrgbU32) {
        Some((false, "from_u32"))
    } else if hir.resolves_of(n, Known::ColorP3) {
        Some((true, "new"))
    } else {
        None
    }
}

/// The flag for dropping the conversion around `inner`.
pub open spec fn unwrap_flag(hir: Hir, n: usize, inner: usize) -> Option<FlagView> {
    match hir.node(inner).sugg {
        Some(sugg) => if resolves_to_color(hir, hir.node(inner).ty) {
            Some(
                FlagView {
                    span: hir.node(n).span,
                    repl: ReplacementView::Inner { text: sugg.operand@, ty: hir.node(inner).ty },
                    erased: seq![],
                },
            )
        } else {
            None
        },
        None => None,
    }
}

/// The flag that the expression itself produces, without its chain.
pub open spec fn own_flag(hir: Hir, defs: Defs, n: usize) -> Option<FlagView> {
    match hir.kind(n) {
        Kind::Call { func, args: _ } => match ctor_rewrite(hir, n) {
            Some((p3, fn_name)) => Some(
                FlagView {
                    span: hir.node(n).span,
                    repl: ReplacementView::Ctor {
                        replace: hir.node(func).span,
                        ty_name: if p3 {
                            "P3"@
                        } else {
                            "Srgb"@
                        },
                        fn_name,
                        def: if p3 {
                            defs.p3
                        } else {
                            defs.srgb
                        },
                        ty: if p3 {
                            defs.p3_ty
                        } else {
                            defs.srgb_ty
                        },
                    },
                    erased: seq![],
                },
            ),
            None => match wraps_color(hir, n) {
                Some(inner) => unwrap_flag(hir, n, inner),
                None => None,
            },
        },
        Kind::MethodCall { name: _, receiver, args } => if args@.len() == 0 && is_into_call(
            hir,
            n,
        ) {
            unwrap_flag(hir, n, receiver)
        } else {
            None
        },
        _ => None,
    }
}

/// What an optional flag says.
pub open spec fn flag_opt(flag: Option<Flag>) -> Option<FlagView> {
    match flag {
        Some(flag) => Some(flag@),
        None => None,
    }
}

fn unwrapping(hir: &Hir, n: usize, inner: usize) -> (r: Option<Flag>)
    requires
        hir.wf(),
        hir.has(n),
        hir.has(inner),
    ensures
        flag_opt(r) == unwrap_flag(*hir, n, inner),
        r matches Some(flag) ==> flag.repl@.result() < hir.types.len(),
{
    proof {
        assert(hir.node_wf(inner));
    }
    let ty: usize = hir.nodes[inner].ty;
    if !resolvable_color(hir, ty) {
        return None;
    }
    match &hir.nodes[inner].sugg {
        Some(sugg) => {
            let flag: Flag = Flag {
                span: hir.nodes[n].span,
                repl: Replacement::Inner { text: sugg.operand.clone(), ty },
                erased: Vec::new(),
            };
            proof {
                assert(flag.erased@ =~= seq![]);
            }
            Some(flag)
        },
        None => None,
    }
}

/// The flag the expression produces: it is the bottom of a method-call chain,
/// the constructor itself when there is no chain.
pub fn analyze(hir: &Hir, defs: Defs, n: usize) -> (r: Option<Flag>)
    requires
        hir.wf(),
        hir.has(n),
        defs.wf(*hir),
    ensures
        flag_opt(r) == own_flag(*hir, defs, n),
        r matches Some(flag) ==> flag.repl@.result() < hir.types.len(),
{
    proof {
        assert(hir.node_wf(n));
    }
    match &hir.nodes[n].kind {
        Kind::Call { func, .. } => {
            if let Some((p3, fn_name)) = ctor_row(hir, n) {
                let flag: Flag = Flag {
                    span: hir.nodes[n].span,
                    repl: Replacement::Ctor {
                        replace: hir.nodes[*func].span,
                        ty_name: if p3 {
                            "P3"
                        } else {
                            "Srgb"
                        },
                        fn_name,
                        def: if p3 {
                            defs.p3
                        } else {
                            defs.srgb
                        },
                        ty: if p3 {
                            defs.p3_ty
                        } else {
                            defs.srgb_ty
                        },
                    },
                    erased: Vec::new(),
                };
                proof {
                    assert(flag.erased@ =~= seq![]);
                }
                return Some(flag);
            }
            match is_color_wrapper(hir, n) {
                Some(inner) => unwrapping(hir, n, inner),
                None => None,
            }
        },
        Kind::MethodCall { receiver, args, .. } => if args.len() == 0 && is_into(hir, n) {
            unwrapping(hir, n, *receiver)
        } else {
            None
        },
        _ => None,
    }
}

/// The arguments from `i` on match the parameters behind `self`.
pub open spec fn args_match(hir: Hir, inputs: Seq<usize>, args: Seq<usize>) -> bool {
    inputs.len() == args.len() + 1 && forall|i: int|
        0 <= i < args.len() ==> arg_matches(hir, inputs[i + 1], #[trigger] args[i])
}

/// The argument can be passed to the parameter: its type is known in full and
/// the parameter's own, or it is a literal that can be.
pub open spec fn arg_matches(hir: Hir, param: usize, arg: usize) -> bool {
    &&& param < hir.types@.len()
    &&& !hir.adjusted_ty(arg).has_infer
    &&& param == hir.node(arg).adjusted || fits_as(hir, arg, param)
}

/// What a call with this signature evaluates to, where the arguments match it.
pub open spec fn sig_output(hir: Hir, inputs: Seq<usize>, output: usize, args: Seq<usize>) -> Option<
    usize,
> {
    if args_match(hir, inputs, args) && output < hir.types@.len() {
        Some(output)
    } else {
        None
    }
}

/// The first input is the receiver; each remaining parameter must equal the
/// written argument's type, and the output is the chain's next type.
pub fn check_method_sig(hir: &Hir, inputs: &Vec<usize>, output: usize, args: &Vec<usize>) -> (r:
    Option<usize>)
    requires
        hir.wf(),
        hir::all_below(args@, hir.nodes@.len() as int),
    ensures
        r == sig_output(*hir, inputs@, output, args@),
{
    if args.len() >= inputs.len() || inputs.len() - args.len() != 1 || output >= hir.types.len() {
        return None;
    }
    let mut i: usize = 0;
    while i < args.len()
        invariant
            i <= args.len(),
            hir.wf(),
            inputs.len() == args.len() + 1,
            hir::all_below(args@, hir.nodes@.len() as int),
            forall|k: int| 0 <= k < i ==> arg_matches(*hir, inputs@[k + 1], #[trigger] args@[k]),
        decreases args.len() - i,
    {
        let param: usize = inputs[i + 1];
        let arg: usize = args[i];
        proof {
            assert(hir.node_wf(arg));
        }
        if param >= hir.types.len() || hir.types[hir.nodes[arg].adjusted].has_infer || !(param
            == hir.nodes[arg].adjusted || literal_fits(hir, arg, param)) {
            assert(!arg_matches(*hir, inputs@[i + 1], args@[i as int]));
            return None;
        }
        i = i + 1;
    }
    Some(output)
}

/// The first function from `i` on that has the name.
pub open spec fn method_from(methods: Seq<Method>, name: Seq<char>, i: int) -> Option<int>
    decreases methods.len() - i,
{
    if i < 0 || i >= methods.len() {
        None
    } else if methods[i].name@ == name {
        Some(i)
    } else {
        method_from(methods, name, i + 1)
    }
}

fn find_method(methods: &Vec<Method>, name: &str) -> (r: Option<usize>)
    ensures
        match r {
            Some(i) => method_from(methods@, name@, 0) == Some(i as int) && i < methods.len(),
            None => method_from(methods@, name@, 0) is None,
        },
{
    let mut i: usize = 0;
    while i < methods.len()
        invariant
            i <= methods.len(),
            method_from(methods@, name@, 0) == method_from(methods@, name@, i as int),
        decreases methods.len() - i,
    {
        if text::str_eq(methods[i].name.as_str(), name) {
            return Some(i);
        }
        i = i + 1;
    }
    None
}

/// The first type from `i` on that has a function of the name, and which.
pub open spec fn inherent_from(hir: Hir, chain: Seq<usize>, name: Seq<char>, i: int) -> Option<
    (usize, int),
>
    decreases chain.len() - i,
{
    if i < 0 || i >= chain.len() {
        None
    } else if chain[i] < hir.types@.len() && method_from(
        hir.ty(chain[i]).methods@,
        name,
        0,
    ) is Some {
        Some((chain[i], method_from(hir.ty(chain[i]).methods@, name, 0)->0))
    } else {
        inherent_from(hir, chain, name, i + 1)
    }
}

fn find_inherent(hir: &Hir, chain: &Vec<usize>, name: &str) -> (r: Option<(usize, usize)>)
    ensures
        match r {
            Some((t, m)) => inherent_from(*hir, chain@, name@, 0) == Some((t, m as int)) && t
                < hir.types.len() && m < hir.ty(t).methods.len(),
            None => inherent_from(*hir, chain@, name@, 0) is None,
        },
{
    let mut i: usize = 0;
    while i < chain.len()
        invariant
            i <= chain.len(),
            inherent_from(*hir, chain@, name@, 0) == inherent_from(*hir, chain@, name@, i as int),
        decreases chain.len() - i,
    {
        let t: usize = chain[i];
        if t < hir.types.len() {
            if let Some(m) = find_method(&hir.types[t].methods, name) {
                return Some((t, m));
            }
        }
        i = i + 1;
    }
    None
}

/// None of the types is left open.
pub open spec fn all_inferred(hir: Hir, args: Seq<usize>) -> bool {
    forall|i: int|
        0 <= i < args.len() ==> #[trigger] args[i] < hir.types@.len() && !hir.ty(args[i]).has_infer
}

/// What a call of the trait's method on a receiver of another type evaluates to.
pub open spec fn trait_step(hir: Hir, call: TraitCall, recv_ty: usize, args: Seq<usize>) -> Option<
    usize,
> {
    if call.args@.len() <= call.arity {
        None
    } else {
        let trait_args = call.args@.subrange(1, call.arity + 1);
        if all_inferred(hir, trait_args) && hir.ty(recv_ty).meets_with(call.def, trait_args) {
            sig_output(hir, call.inputs@, call.output, args)
        } else {
            None
        }
    }
}

/// What a method call evaluates to on a receiver of another type.
pub open spec fn step(hir: Hir, n: usize, recv_ty: usize) -> Option<usize> {
    match hir.kind(n) {
        Kind::MethodCall { name, receiver: _, args } => {
            let by_trait = match hir.node(n).trait_call {
                Some(call) => trait_step(hir, call, recv_ty, args@),
                None => None,
            };
            match inherent_from(hir, hir.ty(recv_ty).derefs@, name.name@, 0) {
                Some((t, m)) => {
                    let method = hir.ty(t).methods@[m];
                    if method.is_method {
                        sig_output(hir, method.inputs@, method.output, args@)
                    } else {
                        by_trait
                    }
                },
                None => by_trait,
            }
        },
        _ => None,
    }
}

fn check_trait_step(hir: &Hir, call: &TraitCall, recv_ty: usize, args: &Vec<usize>) -> (r: Option<
    usize,
>)
    requires
        hir.wf(),
        recv_ty < hir.types.len(),
        hir::all_below(args@, hir.nodes@.len() as int),
    ensures
        r == trait_step(*hir, *call, recv_ty, args@),
{
    if call.args.len() <= call.arity {
        return None;
    }
    let ghost trait_args = call.args@.subrange(1, call.arity + 1);
    let mut own: Vec<usize> = Vec::new();
    let mut i: usize = 0;
    while i < call.arity
        invariant
            i <= call.arity < call.args.len(),
            trait_args == call.args@.subrange(1, call.arity + 1),
            own@ == trait_args.take(i as int),
            all_inferred(*hir, own@),
        decreases call.arity - i,
    {
        let arg: usize = call.args[i + 1];
        proof {
            assert(trait_args[i as int] == arg);
        }
        if arg >= hir.types.len() || hir.types[arg].has_infer {
            assert(!all_inferred(*hir, trait_args));
            return None;
        }
        own.push(arg);
        proof {
            assert(own@ =~= trait_args.take(i + 1));
        }
        i = i + 1;
    }
    proof {
        assert(trait_args.take(call.arity as int) =~= trait_args);
    }
    if !hir.types[recv_ty].meets_trait(call.def, &own) {
        return None;
    }
    check_method_sig(hir, &call.inputs, call.output, args)
}

/// The output type of the method call on a receiver of type `recv_ty`, where the
/// colorspace type offers the method (inherently, through `Deref`, or as the
/// trait method the original call resolved) and its declared parameters match
/// the written arguments. Nothing keeps the lint silent: `Srgb` has no
/// `with_headroom`, so `Color::srgb_f32(..).with_headroom(..)` genuinely needs
/// the `Color`.
pub fn chain_step(hir: &Hir, n: usize, recv_ty: usize) -> (r: Option<usize>)
    requires
        hir.wf(),
        hir.has(n),
        recv_ty < hir.types.len(),
    ensures
        r == step(*hir, n, recv_ty),
        r matches Some(t) ==> t < hir.types.len(),
{
    proof {
        assert(hir.node_wf(n));
    }
    match &hir.nodes[n].kind {
        Kind::MethodCall { name, args, .. } => {
            if let Some((t, m)) = find_inherent(
                hir,
                &hir.types[recv_ty].derefs,
                name.name.as_str(),
            ) {
                let method: &Method = &hir.types[t].methods[m];
                if method.is_method {
                    return check_method_sig(hir, &method.inputs, method.output, args);
                }
            }
            match &hir.nodes[n].trait_call {
                Some(call) => check_trait_step(hir, call, recv_ty, args),
                None => None,
            }
        },
        _ => None,
    }
}

/// The flag at the bottom of a method-call chain, and the rewritten chain's
/// type. Only the outermost call (`top`) may be a `.into()`, which the rewrite
/// drops.
pub open spec fn chain_flag(hir: Hir, defs: Defs, n: usize, top: bool) -> Option<(FlagView, usize)>
    decreases n,
{
    match hir.kind(n) {
        Kind::MethodCall { name: _, receiver, args: _ } => if receiver < n {
            match chain_flag(hir, defs, receiver, false) {
                Some((flag, ty)) => if is_into_call(hir, n) {
                    if top {
                        Some(
                            (
                                FlagView {
                                    span: hir.node(n).span,
                                    repl: flag.repl,
                                    erased: flag.erased.push(
                                        hir.node(n).span.from_lo(hir.node(receiver).span.hi),
                                    ),
                                },
                                ty,
                            ),
                        )
                    } else {
                        None
                    }
                } else {
                    match step(hir, n, ty) {
                        Some(next) => Some((flag, next)),
                        None => None,
                    }
                },
                None => None,
            }
        } else {
            None
        },
        _ => match own_flag(hir, defs, n) {
            Some(flag) => Some((flag, flag.repl.result())),
            None => None,
        },
    }
}

/// The flag an expression produces, and the rewritten expression's type.
pub open spec fn flag_of(hir: Hir, defs: Defs, n: usize) -> Option<(FlagView, usize)>
    decreases n,
{
    match own_flag(hir, defs, n) {
        Some(flag) => Some((flag, flag.repl.result())),
        None => match wraps_color(hir, n) {
            Some(inner) => if inner < n {
                match flag_of(hir, defs, inner) {
                    Some((flag, ty)) => Some(
                        (
                            FlagView {
                                span: hir.node(n).span,
                                repl: flag.repl,
                                erased: flag.erased.push(
                                    hir.node(n).span.up_to_hi(hir.node(inner).span.lo),
                                ).push(hir.node(n).span.from_lo(hir.node(inner).span.hi)),
                            },
                            ty,
                        ),
                    ),
                    None => None,
                }
            } else {
                None
            },
            None => if hir.kind(n) is MethodCall {
                chain_flag(hir, defs, n, true)
            } else {
                None
            },
        },
    }
}

fn chain_flagged(hir: &Hir, defs: Defs, n: usize, top: bool) -> (r: Option<(Flag, usize)>)
    requires
        hir.wf(),
        hir.has(n),
        defs.wf(*hir),
    ensures
        match r {
            Some((flag, ty)) => chain_flag(*hir, defs, n, top) == Some((flag@, ty)) && ty
                < hir.types.len(),
            None => chain_flag(*hir, defs, n, top) is None,
        },
    decreases n,
{
    proof {
        assert(hir.node_wf(n));
    }
    let receiver: usize = match &hir.nodes[n].kind {
        Kind::MethodCall { receiver, .. } => *receiver,
        _ => {
            return match analyze(hir, defs, n) {
                Some(flag) => {
                    let ty: usize = flag.repl.ty();
                    Some((flag, ty))
                },
                None => None,
            };
        },
    };
    let (flag, ty) = match chain_flagged(hir, defs, receiver, false) {
        Some(found) => found,
        None => {
            return None;
        },
    };
    if is_into(hir, n) {
        if !top {
            return None;
        }
        let mut erased: Vec<Span> = flag.erased;
        erased.push(hir.nodes[n].span.with_lo(hir.nodes[receiver].span.hi));
        return Some((Flag { span: hir.nodes[n].span, repl: flag.repl, erased }, ty));
    }
    match chain_step(hir, n, ty) {
        Some(next) => Some((flag, next)),
        None => None,
    }
}

/// The flag the expression produces plus the rewritten expression's type;
/// nothing when it performs no manual erasure or its method chain would not
/// survive the rewrite. The erasure is either the outermost call (`e.into()`,
/// `Into::into(e)`, `Color::from(e)`, `Color::new(e)`) or the innermost one
/// (`Color::srgb_*(..)`, `Color::p3(..)`), with any method chain on the
/// constructor preserved.
pub fn flagged(hir: &Hir, defs: Defs, n: usize) -> (r: Option<(Flag, usize)>)
    requires
        hir.wf(),
        hir.has(n),
        defs.wf(*hir),
    ensures
        match r {
            Some((flag, ty)) => flag_of(*hir, defs, n) == Some((flag@, ty)) && ty
                < hir.types.len(),
            None => flag_of(*hir, defs, n) is None,
        },
    decreases n,
{
    if let Some(flag) = analyze(hir, defs, n) {
        let ty: usize = flag.repl.ty();
        return Some((flag, ty));
    }
    if let Some(inner) = is_color_wrapper(hir, n) {
        return match flagged(hir, defs, inner) {
            Some((flag, ty)) => {
                let span: Span = hir.nodes[n].span;
                let mut erased: Vec<Span> = flag.erased;
                erased.push(span.with_hi(hir.nodes[inner].span.lo));
                erased.push(span.with_lo(hir.nodes[inner].span.hi));
                Some((Flag { span, repl: flag.repl, erased }, ty))
            },
            None => None,
        };
    }
    match &hir.nodes[n].kind {
        Kind::MethodCall { .. } => chain_flagged(hir, defs, n, true),
        _ => None,
    }
}

/// The bounds on the parameter that operand `arg` of the call fills.
pub open spec fn param_bounds(hir: Hir, call: usize, arg: usize) -> Option<Seq<Bound>> {
    match (hir.node(call).bounds, hir.operand_place(call, arg)) {
        (Some(bounds), Some(i)) => if hir.is_call(call) && i < bounds@.len() {
            Some(bounds@[i]@)
        } else {
            None
        },
        _ => None,
    }
}

/// Whether the parameter that operand `arg` of the call fills takes a color, and
/// a value of type `t` in place of one.
pub open spec fn accepts_at(hir: Hir, call: usize, arg: usize, t: usize) -> bool {
    param_bounds(hir, call, arg) matches Some(bounds) && color_param(hir, bounds) && passes(
        hir,
        t,
        bounds,
    )
}

fn accepted_at(hir: &Hir, call: usize, arg: usize, t: usize) -> (r: bool)
    requires
        hir.wf(),
        hir.has(call),
        t < hir.types.len(),
    ensures
        r == accepts_at(*hir, call, arg, t),
{
    if !hir.call(call) {
        return false;
    }
    proof {
        assert(hir.node_wf(call));
    }
    let i: usize = match hir.arg_index(call, arg) {
        Some(i) => i,
        None => {
            return false;
        },
    };
    match &hir.nodes[call].bounds {
        Some(bounds) => {
            if i < bounds.len() {
                proof {
                    let held = hir.node(call).bounds;
                    assert(hir::all_bounds_below(held, hir.types@.len() as int));
                    assert(held->0@[i as int] == bounds@[i as int]);
                }
                is_color_param(hir, &bounds[i]) && satisfies(hir, t, &bounds[i])
            } else {
                false
            }
        },
        None => false,
    }
}

/// The expression is a whole argument at a color-bound parameter that a value of
/// type `t` satisfies.
pub open spec fn color_arg(hir: Hir, n: usize, t: usize) -> bool {
    anyview::holder(hir, n, false) matches Some((call, arg)) && accepts_at(hir, call, arg, t)
}

/// Whether the expression is a whole argument of a call whose matching parameter
/// carries a color bound that `t` satisfies.
pub fn use_is_color_arg(hir: &Hir, n: usize, t: usize) -> (r: bool)
    requires
        hir.wf(),
        hir.has(n),
        t < hir.types.len(),
    ensures
        r == color_arg(*hir, n, t),
{
    match anyview::held_by(hir, n, false) {
        Some((call, arg)) => accepted_at(hir, call, arg, t),
        None => false,
    }
}

/// Every use of the local is a whole argument at a color-bound parameter.
pub open spec fn all_color_uses(hir: Hir, local: usize, t: usize) -> bool {
    forall|n: usize| hir.has(n) && #[trigger] hir.local(n) == Some(local) ==> color_arg(hir, n, t)
}

/// The local is used.
pub open spec fn is_used(hir: Hir, local: usize) -> bool {
    exists|n: usize| hir.has(n) && #[trigger] hir.local(n) == Some(local)
}

fn scan_uses(hir: &Hir, local: usize, t: usize) -> (r: (bool, bool))
    requires
        hir.wf(),
        t < hir.types.len(),
    ensures
        r.0 == all_color_uses(*hir, local, t),
        r.0 ==> r.1 == is_used(*hir, local),
{
    let mut used: bool = false;
    let mut n: usize = 0;
    while n < hir.nodes.len()
        invariant
            n <= hir.nodes.len(),
            hir.wf(),
            t < hir.types.len(),
            used == (exists|k: usize| k < n && #[trigger] hir.local(k) == Some(local)),
            forall|k: usize|
                k < n && #[trigger] hir.local(k) == Some(local) ==> color_arg(*hir, k, t),
        decreases hir.nodes.len() - n,
    {
        if let Some(id) = hir.res_local(n) {
            if id == local {
                used = true;
                if !use_is_color_arg(hir, n, t) {
                    assert(hir.local(n) == Some(local));
                    return (false, true);
                }
            }
        }
        n = n + 1;
    }
    (true, used)
}

/// Whether every use of the local in its body is a whole argument at a
/// color-bound parameter that the rewritten type satisfies: the only shape under
/// which rewriting the initializer cannot break another use. Uses inside
/// closures count.
pub fn only_color_uses(hir: &Hir, local: usize, t: usize) -> (r: bool)
    requires
        hir.wf(),
        t < hir.types.len(),
    ensures
        r == all_color_uses(*hir, local, t),
{
    scan_uses(hir, local, t).0
}

/// The outermost method chain or conversion wrapper that `n` is the bottom of.
pub open spec fn outermost(hir: Hir, n: usize) -> usize
    decreases hir.nodes@.len() - n,
{
    match hir.up(n) {
        Some(p) => match hir.kind(p) {
            Kind::MethodCall { name: _, receiver, args: _ } => if receiver == n {
                outermost(hir, p)
            } else {
                n
            },
            Kind::Call { func: _, args: _ } => if wraps_color(hir, p) == Some(n) {
                outermost(hir, p)
            } else {
                n
            },
            _ => n,
        },
        None => n,
    }
}

fn climb(hir: &Hir, n: usize) -> (r: usize)
    requires
        hir.wf(),
        hir.has(n),
    ensures
        r == outermost(*hir, n),
        hir.has(r),
    decreases hir.nodes.len() - n,
{
    let p: usize = match hir.parent(n) {
        Some(p) => p,
        None => {
            return n;
        },
    };
    match &hir.nodes[p].kind {
        Kind::MethodCall { receiver, .. } => if *receiver == n {
            climb(hir, p)
        } else {
            n
        },
        Kind::Call { .. } => match is_color_wrapper(hir, p) {
            Some(inner) => if inner == n {
                climb(hir, p)
            } else {
                n
            },
            None => n,
        },
        _ => n,
    }
}

/// The local that an unannotated `let` binds to `n`.
pub open spec fn let_local(hir: Hir, n: usize) -> Option<usize> {
    match hir.up(n) {
        Some(p) => match hir.kind(p) {
            Kind::LetStmt { pat, ty, init, els: _ } => match hir.kind(pat) {
                Kind::Binding { name: _, id, sub: _ } => if init == Some(n) && ty is None {
                    Some(id)
                } else {
                    None
                },
                _ => None,
            },
            _ => None,
        },
        None => None,
    }
}

fn bound_by_let(hir: &Hir, n: usize) -> (r: Option<usize>)
    requires
        hir.wf(),
        hir.has(n),
    ensures
        r == let_local(*hir, n),
{
    let p: usize = match hir.parent(n) {
        Some(p) => p,
        None => {
            return None;
        },
    };
    proof {
        assert(hir.node_wf(p));
    }
    match &hir.nodes[p].kind {
        Kind::LetStmt { pat, ty, init, .. } => {
            let own: bool = match init {
                Some(init) => *init == n,
                None => false,
            };
            match &hir.nodes[*pat].kind {
                Kind::Binding { id, .. } => if own && ty.is_none() {
                    Some(*id)
                } else {
                    None
                },
                _ => None,
            }
        },
        _ => None,
    }
}

/// `manual_color_erasure` rewrites the expression that `n` is the bottom of.
pub open spec fn rewritten(hir: Hir, defs: Option<Defs>, n: usize) -> bool {
    let top = outermost(hir, n);
    match defs {
        Some(defs) => match flag_of(hir, defs, top) {
            Some((_, ty)) => if hir.node(top).span.expanded() {
                false
            } else {
                match let_local(hir, top) {
                    Some(local) => is_used(hir, local) && all_color_uses(hir, local, ty),
                    None => match anyview::holder(hir, top, true) {
                        Some((call, arg)) => !hir.node(call).span.expanded() && accepts_at(
                            hir,
                            call,
                            arg,
                            ty,
                        ),
                        None => false,
                    },
                }
            },
            None => false,
        },
        None => false,
    }
}

/// Whether `manual_color_erasure` would rewrite the expression that `n` bottoms
/// where it sits, so that `literal_color_components` defers exactly when it
/// fires: `n` is the `Color` constructor (or conversion wrapper) at the bottom
/// of whatever method chain or wrapper encloses it, and that outermost
/// expression is a whole argument at a parameter whose bounds are all in the
/// color table and which the rewritten type satisfies, or an unannotated `let`
/// initializer whose every use is one.
pub fn would_rewrite(hir: &Hir, defs: Option<Defs>, n: usize) -> (r: bool)
    requires
        hir.wf(),
        hir.has(n),
        defs matches Some(d) ==> d.wf(*hir),
    ensures
        r == rewritten(*hir, defs, n),
{
    let defs: Defs = match defs {
        Some(defs) => defs,
        None => {
            return false;
        },
    };
    let top: usize = climb(hir, n);
    let ty: usize = match flagged(hir, defs, top) {
        Some((_, ty)) => ty,
        None => {
            return false;
        },
    };
    if hir.nodes[top].span.from_expansion() {
        return false;
    }
    if let Some(local) = bound_by_let(hir, top) {
        let (all, used) = scan_uses(hir, local, ty);
        return all && used;
    }
    match anyview::held_by(hir, top, true) {
        Some((call, arg)) => !hir.nodes[call].span.from_expansion() && accepted_at(
            hir,
            call,
            arg,
            ty,
        ),
        None => false,
    }
}

/// What a colour constructor takes.
pub ghost enum Taken {
    Floats,
    Bytes,
    Hex,
    Packed,
}

/// What the function of a colourspace type of that name takes.
pub open spec fn takes_by_name(name: Seq<char>, taken: Taken) -> bool {
    match taken {
        Taken::Floats => name == "new"@,
        Taken::Bytes => name == "new_u8"@,
        Taken::Hex => name == "from_hex"@,
        Taken::Packed => name == "from_u32"@,
    }
}

/// A `Color` constructor is rewritten to the function of its own colourspace that
/// takes the same operands.
pub proof fn constructors_keep_their_operands(hir: Hir, n: usize, taken: Taken)
    requires
        match taken {
            Taken::Floats => hir.resolves_item(n, Known::ColorSrgbF32),
            Taken::Bytes => hir.resolves_item(n, Known::ColorSrgb) && !hir.resolves_item(
                n,
                Known::ColorSrgbF32,
            ),
            Taken::Hex => hir.resolves_item(n, Known::ColorSrgbHex) && !hir.resolves_item(
                n,
                Known::ColorSrgbF32,
            ) && !hir.resolves_item(n, Known::ColorSrgb),
            Taken::Packed => hir.resolves_item(n, Known::ColorSrgbU32) && !hir.resolves_item(
                n,
                Known::ColorSrgbF32,
            ) && !hir.resolves_item(n, Known::ColorSrgb) && !hir.resolves_item(
                n,
                Known::ColorSrgbHex,
            ),
        },
    ensures
        ctor_rewrite(hir, n) matches Some(rewrite) && !rewrite.0 && takes_by_name(rewrite.1, taken),
{
}

/// A rewritten constructor is one of `P3` exactly where the colour was one, and
/// the flag names the type, its definition and its function alike.
pub proof fn flags_keep_the_colorspace(hir: Hir, defs: Defs, n: usize)
    ensures
        own_flag(hir, defs, n) matches Some(flag) ==> match flag.repl {
            ReplacementView::Ctor { replace, ty_name, fn_name, def, ty } => {
                &&& hir.kind(n) matches Kind::Call { func, args: _ }
                &&& replace == hir.node(func).span
                &&& {
                    ||| ty_name == "P3"@ && def == defs.p3 && ty == defs.p3_ty && fn_name == "new"@
                        && hir.resolves_item(n, Known::ColorP3)
                    ||| ty_name == "Srgb"@ && def == defs.srgb && ty == defs.srgb_ty && (
                    hir.resolves_item(n, Known::ColorSrgbF32) && fn_name == "new"@
                        || hir.resolves_item(n, Known::ColorSrgb) && fn_name == "new_u8"@
                        || hir.resolves_item(n, Known::ColorSrgbHex) && fn_name == "from_hex"@
                        || hir.resolves_item(n, Known::ColorSrgbU32) && fn_name == "from_u32"@)
                }
            },
            ReplacementView::Inner { text, ty } => exists|inner: usize| #[trigger]
                hir.node(inner).ty == ty && (hir.node(inner).sugg matches Some(sugg) && text
                    == sugg.operand@) && resolves_to_color(hir, ty),
        },
{
    if let Some(flag) = own_flag(hir, defs, n) {
        match (hir.kind(n), flag.repl) {
            (Kind::Call { .. }, ReplacementView::Inner { text, ty }) => {
                let inner = wraps_color(hir, n)->0;
                assert(hir.node(inner).ty == ty);
            },
            (
                Kind::MethodCall { name: _, receiver, args: _ },
                ReplacementView::Inner { text, ty },
            ) => {
                assert(hir.node(receiver).ty == ty);
            },
            _ => {},
        }
    }
}

/// A type passes only where every color bound is met: for an `Into<Color>` bound
/// it is known to implement that trait for that very type.
pub proof fn passing_types_meet_their_bounds(hir: Hir, t: usize, bounds: Seq<Bound>, k: int)
    requires
        0 <= k < bounds.len(),
        hir.is_def(bounds[k].def, Known::IntoTrait),
        bounds[k].arg matches Some(arg) && hir.ty_is(arg, Known::Color),
    ensures
        passes(hir, t, bounds) ==> !hir.ty(t).has_infer && exists|m: int|
            0 <= m < hir.ty(t).meets@.len() && (#[trigger] hir.ty(t).meets@[m]).def
                == bounds[k].def && hir.ty(t).meets@[m].args@ == seq![bounds[k].arg->0],
{
    if passes(hir, t, bounds) {
        assert(takes_color(hir, bounds[k]));
        assert(hir.ty(t).meets_bound(bounds[k]));
    }
}

} // verus!
