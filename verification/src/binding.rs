//! `nami`'s `Binding`: applicability of its methods and spellings of its name,
//! shared by the lints that match binding reads, writes and constructors.

use crate::diagnostics;
use crate::diagnostics::Applicability;
use crate::hir::{BinOp, Coercion, DefKind, Hir, Kind, Namespace, Res, Span, Trait, TyKind};
use crate::imports;
use crate::imports::{Bare, Module, Query};
use crate::known::Known;
use crate::text;
use vstd::prelude::*;

verus! {

/// The `T` of the `Binding<T>` that a receiver is, references aside.
pub open spec fn value_of(hir: Hir, receiver: usize) -> Option<usize> {
    hir.ty_arg(hir.referent(hir.node(receiver).adjusted), Known::Binding, 0)
}

/// The `T` in `Binding<T>` for a receiver expression; nothing for a receiver
/// that is not a `Binding` (a `CustomBinding` impl has none of the inherent
/// methods the binding lints' suggestions name).
pub fn binding_value_ty(hir: &Hir, receiver: usize) -> (r: Option<usize>)
    requires
        hir.wf(),
        hir.has(receiver),
    ensures
        r == value_of(*hir, receiver),
        r matches Some(t) ==> t < hir.types.len(),
{
    proof {
        assert(hir.node_wf(receiver));
    }
    hir.adt_arg(hir.peel_refs(hir.nodes[receiver].adjusted), Known::Binding, 0)
}

/// So many stars.
pub open spec fn stars(n: nat) -> Seq<char>
    decreases n,
{
    if n == 0 {
        seq![]
    } else {
        stars((n - 1) as nat).push('*')
    }
}

fn star_text(n: usize) -> (r: String)
    ensures
        r@ == stars(n as nat),
{
    let mut out: String = String::new();
    let mut i: usize = 0;
    proof {
        assert(out@ =~= seq![]);
    }
    while i < n
        invariant
            i <= n,
            out@ == stars(i as nat),
        decreases n - i,
    {
        out.push('*');
        i = i + 1;
    }
    out
}

/// Stars in front of it apply to all of the expression without parentheses.
pub open spec fn derefs_bare(kind: Kind) -> bool {
    kind is Path || kind is Field || kind is AddrOf
}

/// What a reborrow through `derefs` derefs starts from: how many derefs are left
/// to write, and the source to write them in front of.
pub open spec fn reborrowed(hir: Hir, n: usize, source: Seq<char>, derefs: nat) -> Option<
    (nat, Seq<char>),
> {
    match hir.kind(n) {
        Kind::AddrOf { mutable: false, raw: false, operand } => {
            let span = hir.node(operand).span;
            match hir.source_between(n, span.lo, span.hi) {
                Some(inner) => if derefs > 0 {
                    Some(((derefs - 1) as nat, inner))
                } else {
                    None
                },
                None => None,
            }
        },
        _ => Some((derefs, source)),
    }
}

/// The operand as a generic parameter must be given it.
pub open spec fn coerced(hir: Hir, n: usize) -> Option<Seq<char>> {
    match hir.source(n) {
        Some(source) => if hir.node(n).coercion is Identity || hir.node(n).ty == hir.node(
            n,
        ).adjusted {
            Some(source)
        } else {
            match hir.node(n).coercion {
                Coercion::Reborrow { derefs } => match reborrowed(hir, n, source, derefs as nat) {
                    Some((left, inner)) => Some(
                        if derefs_bare(hir.kind(n)) {
                            "&"@ + stars(left) + inner
                        } else {
                            "&"@ + stars(left) + ("("@ + inner + ")"@)
                        },
                    ),
                    None => None,
                },
                _ => None,
            }
        },
        None => None,
    }
}

/// The operand spelled so that a generic parameter sees the type the operator
/// saw: the source itself when no coercion applied or when the coercion lands
/// on the same type, `&*x` when the operand was reborrowed through `n` derefs
/// (`&String` to `&str`; `&*(&x)` is `&x` with one deref fewer), and nothing
/// for any other adjustment, which the named methods cannot reproduce.
pub fn coerced_operand(hir: &Hir, n: usize) -> (r: Option<String>)
    requires
        hir.wf(),
        hir.has(n),
    ensures
        text::text_opt(r) == coerced(*hir, n),
{
    let source: String = match hir.snippet_opt(n) {
        Some(source) => source,
        None => {
            return None;
        },
    };
    let derefs: usize = match hir.nodes[n].coercion {
        Coercion::Identity => {
            return Some(source);
        },
        Coercion::Reborrow { derefs } => derefs,
        Coercion::Other => {
            return if hir.nodes[n].ty == hir.nodes[n].adjusted {
                Some(source)
            } else {
                None
            };
        },
    };
    if hir.nodes[n].ty == hir.nodes[n].adjusted {
        return Some(source);
    }
    proof {
        assert(hir.node_wf(n));
    }
    let bare: bool = match &hir.nodes[n].kind {
        Kind::Path { .. } | Kind::Field { .. } | Kind::AddrOf { .. } => true,
        _ => false,
    };
    let (left, inner): (usize, String) = match &hir.nodes[n].kind {
        Kind::AddrOf { mutable: false, raw: false, operand } => {
            let span: Span = hir.nodes[*operand].span;
            match hir.snippet_between(n, span.lo, span.hi) {
                Some(inner) => {
                    if derefs == 0 {
                        return None;
                    }
                    (derefs - 1, inner)
                },
                None => {
                    return None;
                },
            }
        },
        _ => (derefs, source),
    };
    let prefix: String = star_text(left);
    Some(
        if bare {
            text::cat3("&", prefix.as_str(), inner.as_str())
        } else {
            let operand: String = text::cat3("(", inner.as_str(), ")");
            text::cat3("&", prefix.as_str(), operand.as_str())
        },
    )
}

/// The `Binding` method that applies an operator in place.
pub open spec fn assign_name(op: BinOp) -> Option<Seq<char>> {
    match op {
        BinOp::Add => Some("add_assign"@),
        BinOp::Sub => Some("sub_assign"@),
        BinOp::Mul => Some("mul_assign"@),
        BinOp::Div => Some("div_assign"@),
        BinOp::Rem => Some("rem_assign"@),
        BinOp::BitAnd => Some("bitand_assign"@),
        BinOp::BitOr => Some("bitor_assign"@),
        BinOp::BitXor => Some("bitxor_assign"@),
        BinOp::Shl => Some("shl_assign"@),
        BinOp::Shr => Some("shr_assign"@),
        _ => None,
    }
}

/// What an optional name says.
pub open spec fn name_opt(name: Option<&'static str>) -> Option<Seq<char>> {
    match name {
        Some(name) => Some(name@),
        None => None,
    }
}

/// The `Binding` method that applies the operator in place: `add_assign` for
/// `+`.
pub fn op_assign_method(op: BinOp) -> (r: Option<&'static str>)
    ensures
        name_opt(r) == assign_name(op),
{
    match op {
        BinOp::Add => Some("add_assign"),
        BinOp::Sub => Some("sub_assign"),
        BinOp::Mul => Some("mul_assign"),
        BinOp::Div => Some("div_assign"),
        BinOp::Rem => Some("rem_assign"),
        BinOp::BitAnd => Some("bitand_assign"),
        BinOp::BitOr => Some("bitor_assign"),
        BinOp::BitXor => Some("bitxor_assign"),
        BinOp::Shl => Some("shl_assign"),
        BinOp::Shr => Some("shr_assign"),
        _ => None,
    }
}

/// The method that applies an operator in place with an operand of type
/// `operand`, where it can.
pub open spec fn assign_with(hir: Hir, value: usize, op: BinOp, operand: usize) -> Option<Seq<char>> {
    if operand == value && hir.ty(value).known_clone() && hir.ty(value).implements(
        Trait::OpSelf(op),
        seq![],
    ) {
        assign_name(op)
    } else {
        None
    }
}

/// The name of the `Binding<T>` method that applies the operator in place, when
/// the operand is of type `T` itself and `T: Op<T, Output = T> + Clone`, which
/// is what `Binding::<op>_assign(other: T)` requires. Nothing for any other
/// operand type: `String + &str` has no `add_assign` on the binding.
pub fn named_op_assign(hir: &Hir, value: usize, op: BinOp, operand: usize) -> (r: Option<
    &'static str,
>)
    requires
        value < hir.types.len(),
    ensures
        name_opt(r) == assign_with(*hir, value, op, operand),
{
    if operand == value && hir.types[value].is_known_clone() && hir.types[value].implements_trait(
        Trait::OpSelf(op),
    ) {
        op_assign_method(op)
    } else {
        None
    }
}

/// `Binding<T>::append` takes an element of the type.
pub open spec fn appends(hir: Hir, value: usize, element: usize) -> bool {
    &&& hir.ty(value).known_clone()
    &&& !hir.ty(element).has_infer
    &&& hir.ty(value).implements(Trait::Extend, seq![element])
}

/// Whether `Binding<T>::append` accepts an element of the type: the method
/// requires `T: Clone + Extend<E>` (`String: Extend<&str>`, `Vec<T>: Extend<T>`).
pub fn extend_accepts(hir: &Hir, value: usize, element: usize) -> (r: bool)
    requires
        value < hir.types.len(),
        element < hir.types.len(),
    ensures
        r == appends(*hir, value, element),
{
    hir.types[value].is_known_clone() && !hir.types[element].has_infer
        && hir.types[value].implements_one(Trait::Extend, element)
}

/// The constructor that `Binding` has for a primitive type alone.
pub open spec fn ctor_of(kind: TyKind) -> Option<Seq<char>> {
    match kind {
        TyKind::Uint { bits: Some(32) } => Some("u32"@),
        TyKind::Uint { bits: Some(64) } => Some("u64"@),
        TyKind::Uint { bits: None } => Some("usize"@),
        TyKind::Int { bits: Some(32) } => Some("i32"@),
        TyKind::Int { bits: Some(64) } => Some("i64"@),
        TyKind::Int { bits: None } => Some("isize"@),
        TyKind::Float { bits: 32 } => Some("f32"@),
        TyKind::Float { bits: 64 } => Some("f64"@),
        TyKind::Bool => Some("bool"@),
        _ => None,
    }
}

/// The dedicated `Binding::<t>` constructor `nami` gives a primitive type;
/// nothing for a type it gives no such constructor.
pub fn dedicated_ctor(kind: &TyKind) -> (r: Option<&'static str>)
    ensures
        name_opt(r) == ctor_of(*kind),
{
    match kind {
        TyKind::Uint { bits: Some(32) } => Some("u32"),
        TyKind::Uint { bits: Some(64) } => Some("u64"),
        TyKind::Uint { bits: None } => Some("usize"),
        TyKind::Int { bits: Some(32) } => Some("i32"),
        TyKind::Int { bits: Some(64) } => Some("i64"),
        TyKind::Int { bits: None } => Some("isize"),
        TyKind::Float { bits: 32 } => Some("f32"),
        TyKind::Float { bits: 64 } => Some("f64"),
        TyKind::Bool => Some("bool"),
        _ => None,
    }
}

/// The crates that the linted crate can name.
#[derive(Clone, Copy, Debug, PartialEq, Eq, Structural)]
pub struct Nameable {
    pub waterui: bool,
    pub nami: bool,
}

/// The crate to spell `Binding` through.
pub open spec fn root_of(nameable: Nameable) -> Option<Seq<char>> {
    if nameable.waterui {
        Some("waterui"@)
    } else if nameable.nami {
        Some("nami"@)
    } else {
        None
    }
}

/// The crate root a suggestion can spell `Binding` through: `waterui` when the
/// linted crate can name it, `nami` when only that is a direct dependency,
/// nothing when neither is (for example when linting `nami` itself).
pub fn binding_krate(nameable: Nameable) -> (r: Option<&'static str>)
    ensures
        name_opt(r) == root_of(nameable),
{
    if nameable.waterui {
        Some("waterui")
    } else if nameable.nami {
        Some("nami")
    } else {
        None
    }
}

/// A one-argument call to a generic constructor whose result type is
/// `Binding<T>` with `T` fully inferred.
#[derive(Clone, Copy, Debug, PartialEq, Eq, Structural)]
pub struct GenericCtorCall {
    /// The callee expression (`binding` or `Binding::<T>::container`).
    pub func: usize,
    /// The constructor's single argument.
    pub arg: usize,
    /// The `Binding` struct, which the `Binding` spelling is checked against.
    pub adt: usize,
    /// `T` in the result's `Binding<T>`.
    pub value: usize,
}

/// `nami`'s generic binding constructors.
pub open spec fn generic_ctors() -> Seq<Known> {
    seq![Known::BindingFn, Known::BindingContainer]
}

/// The item that a path expression names.
pub open spec fn path_def(hir: Hir, n: usize) -> Option<usize> {
    match hir.kind(n) {
        Kind::Path { plain: _, segments: _, res: Res::Def { def, kind: _ } } => Some(def),
        _ => None,
    }
}

/// The `Binding<T>` that a type is: the struct, and `T` where it is known in
/// full.
pub open spec fn known_binding(hir: Hir, t: usize) -> Option<(usize, usize)> {
    match hir.ty(t).kind {
        TyKind::Adt { def, args } => if hir.is_def(def, Known::Binding) && args@.len() > 0 && !hir.ty(
            args@[0],
        ).has_infer {
            Some((def, args@[0]))
        } else {
            None
        },
        _ => None,
    }
}

/// The call of a generic constructor that an expression is.
pub open spec fn ctor_call(hir: Hir, n: usize) -> Option<GenericCtorCall> {
    match hir.kind(n) {
        Kind::Call { func, args } => if hir.node(n).span.expanded() || args@.len() != 1 {
            None
        } else {
            match (path_def(hir, func), known_binding(hir, hir.node(n).ty)) {
                (Some(def), Some((adt, value))) => if hir.def_in(def, generic_ctors()) {
                    Some(GenericCtorCall { func, arg: args@[0], adt, value })
                } else {
                    None
                },
                _ => None,
            }
        },
        _ => None,
    }
}

/// The expression as `ctor(arg)` for a generic constructor returning
/// `Binding<T>` with nothing left to infer in `T`; nothing for any other call
/// shape or an expansion.
pub fn generic_ctor_call(hir: &Hir, n: usize) -> (r: Option<GenericCtorCall>)
    requires
        hir.wf(),
        hir.has(n),
    ensures
        r == ctor_call(*hir, n),
        r matches Some(call) ==> call.func < n && call.arg < n && call.value < hir.types.len(),
{
    proof {
        assert(hir.node_wf(n));
    }
    if hir.nodes[n].span.from_expansion() {
        return None;
    }
    let (func, arg): (usize, usize) = match &hir.nodes[n].kind {
        Kind::Call { func, args } => if args.len() == 1 {
            (*func, args[0])
        } else {
            return None;
        },
        _ => {
            return None;
        },
    };
    let def: usize = match &hir.nodes[func].kind {
        Kind::Path { res: Res::Def { def, .. }, .. } => *def,
        _ => {
            return None;
        },
    };
    if !hir.def_path_in(def, &[Known::BindingFn, Known::BindingContainer]) {
        return None;
    }
    let t: usize = hir.nodes[n].ty;
    proof {
        assert(hir.types@[t as int].below(t as int));
    }
    match &hir.types[t].kind {
        TyKind::Adt { def: adt, args } => if hir.def_path_eq(*adt, Known::Binding) && args.len()
            > 0 && !hir.types[args[0]].has_infer {
            Some(GenericCtorCall { func, arg, adt: *adt, value: args[0] })
        } else {
            None
        },
        _ => None,
    }
}

/// A `let <pat>: Binding<T> = <expr>` annotation.
#[derive(Clone, Copy, Debug, PartialEq, Eq, Structural)]
pub struct BindingAnnotation {
    /// The `: Binding<T>` span to erase.
    pub erase: Span,
    /// The `Binding` path of the annotation.
    pub ty: usize,
}

/// The type is written as a path to the `Binding` struct.
pub open spec fn written_binding(hir: Hir, ty: usize) -> bool {
    match hir.kind(ty) {
        Kind::PathTy { res: Res::Def { def, kind } } => kind == DefKind::Struct && hir.is_def(
            def,
            Known::Binding,
        ),
        _ => false,
    }
}

/// The annotation of the `let` whose initializer an expression is.
pub open spec fn annotation_of(hir: Hir, n: usize) -> Option<BindingAnnotation>
    decreases hir.nodes@.len() - n,
{
    match hir.up(n) {
        Some(p) => match hir.kind(p) {
            Kind::DropTemps { inner: _ } => annotation_of(hir, p),
            Kind::LetStmt { pat, ty: Some(ty), init, els: _ } => if init == Some(n) && !hir.node(
                p,
            ).span.expanded() && !hir.node(ty).span.expanded() && written_binding(hir, ty) {
                Some(
                    BindingAnnotation {
                        erase: hir.node(ty).span.from_lo(hir.node(pat).span.hi),
                        ty,
                    },
                )
            } else {
                None
            },
            _ => None,
        },
        None => None,
    }
}

/// The annotation, where the expression is the whole initializer of
/// `let <pat>: Binding<T> = expr`. Nothing without an annotation, when the
/// annotation is anything but a `Binding` path (a type alias, a projection), or
/// when the `let` sits in an expansion: the call can sit at a macro call site
/// while the `let` lives in the macro's body, where erasing the annotation would
/// edit the definition once per expansion.
pub fn binding_annotation(hir: &Hir, n: usize) -> (r: Option<BindingAnnotation>)
    requires
        hir.wf(),
        hir.has(n),
    ensures
        r == annotation_of(*hir, n),
        r matches Some(found) ==> hir.has(found.ty),
    decreases hir.nodes.len() - n,
{
    let p: usize = match hir.parent(n) {
        Some(p) => p,
        None => {
            return None;
        },
    };
    proof {
        assert(hir.node_wf(p));
    }
    match &hir.nodes[p].kind {
        Kind::DropTemps { .. } => binding_annotation(hir, p),
        Kind::LetStmt { pat, ty: Some(ty), init, .. } => {
            let own: bool = match init {
                Some(init) => *init == n,
                None => false,
            };
            if !own || hir.nodes[p].span.from_expansion() || hir.nodes[*ty].span.from_expansion() {
                return None;
            }
            match &hir.nodes[*ty].kind {
                Kind::PathTy { res: Res::Def { def, kind } } => if *kind == DefKind::Struct
                    && hir.def_path_eq(*def, Known::Binding) {
                    Some(
                        BindingAnnotation {
                            erase: hir.nodes[*ty].span.with_lo(hir.nodes[*pat].span.hi),
                            ty: *ty,
                        },
                    )
                } else {
                    None
                },
                _ => None,
            }
        },
        _ => None,
    }
}

/// How `Binding` is spelled at a place.
#[derive(Debug)]
pub struct Spelling {
    /// The name; nothing where no crate that has it can be named.
    pub name: Option<String>,
    /// The `use` that the name needs, and where it goes.
    pub import: Option<(Span, String)>,
    pub applicability: Applicability,
}

/// What a spelling says.
pub ghost struct SpellingView {
    pub name: Option<Seq<char>>,
    pub import: Option<(Span, Seq<char>)>,
    pub applicability: Applicability,
}

impl View for Spelling {
    type V = SpellingView;

    open spec fn view(&self) -> SpellingView {
        SpellingView {
            name: text::text_opt(self.name),
            import: diagnostics::part_opt(self.import),
            applicability: self.applicability,
        }
    }
}

/// `use <path>;` in the module, and where it goes.
pub open spec fn use_part(module: Module, path: Seq<char>) -> Option<(Span, Seq<char>)> {
    match imports::insertion(module, path) {
        Some((span, before, after)) => Some((span, before + "use "@ + path + ";"@ + after)),
        None => None,
    }
}

/// `use <path>;` in the module, and where it goes.
pub fn import_part(module: &Module, path: &str) -> (r: Option<(Span, String)>)
    ensures
        diagnostics::part_opt(r) == use_part(*module, path@),
{
    match imports::use_insertion(module, path) {
        Some((span, before, after)) => Some(
            (span, text::cat5(before.as_str(), "use ", path, ";", after.as_str())),
        ),
        None => None,
    }
}

/// How `Binding` is spelled where the bare name means what `status` says.
pub open spec fn spelled(module: Module, nameable: Nameable, status: Bare) -> SpellingView {
    let full = Applicability::MachineApplicable;
    match (status, root_of(nameable)) {
        (Bare::Same, _) => SpellingView {
            name: Some("Binding"@),
            import: None,
            applicability: full,
        },
        (_, None) => SpellingView { name: None, import: None, applicability: full },
        (_, Some(krate)) => if status == Bare::Free && use_part(
            module,
            krate + "::Binding"@,
        ) is Some {
            SpellingView {
                name: Some("Binding"@),
                import: use_part(module, krate + "::Binding"@),
                applicability: full,
            }
        } else {
            SpellingView {
                name: Some(krate + "::Binding"@),
                import: None,
                applicability: Applicability::MaybeIncorrect,
            }
        },
    }
}

/// How `Binding` is spelled where the bare name means what `status` says:
/// `Binding` when it already resolves to the struct or can be `use`d there,
/// `<krate>::Binding`, which is less sure, when the bare name is taken or the
/// `use` cannot be placed. Nothing when neither `waterui` nor `nami` is
/// nameable.
pub fn spell_binding(module: &Module, nameable: Nameable, status: Bare) -> (r: Spelling)
    ensures
        r@ == spelled(*module, nameable, status),
{
    let full: Applicability = Applicability::MachineApplicable;
    if status == Bare::Same {
        return Spelling { name: Some("Binding".to_owned()), import: None, applicability: full };
    }
    let krate: &'static str = match binding_krate(nameable) {
        Some(krate) => krate,
        None => {
            return Spelling { name: None, import: None, applicability: full };
        },
    };
    let path: String = text::cat(krate, "::Binding");
    if status == Bare::Free {
        let part: Option<(Span, String)> = import_part(module, path.as_str());
        if part.is_some() {
            return Spelling { name: Some("Binding".to_owned()), import: part, applicability: full };
        }
    }
    Spelling { name: Some(path), import: None, applicability: Applicability::MaybeIncorrect }
}

/// How `Binding` is spelled at a node.
pub open spec fn name_at(
    hir: Hir,
    module: Module,
    nameable: Nameable,
    n: usize,
    at: u32,
    adt: usize,
) -> SpellingView {
    spelled(
        module,
        nameable,
        imports::bare_meaning(hir, module, n, at, "Binding"@, Namespace::Type, Some(adt)),
    )
}

/// How `Binding` is spelled at a node, with the `use` that it needs.
pub fn binding_name(
    hir: &Hir,
    module: &Module,
    nameable: Nameable,
    n: usize,
    at: u32,
    adt: usize,
) -> (r: Spelling)
    requires
        hir.wf(),
        hir.has(n),
    ensures
        r@ == name_at(*hir, *module, nameable, n, at, adt),
{
    let status: Bare = imports::bare_status(
        hir,
        module,
        n,
        &Query { pos: at, name: "Binding", ns: Namespace::Type, target: Some(adt) },
    );
    spell_binding(module, nameable, status)
}

/// A dedicated constructor is named as its type is: a letter for the kind of
/// number, then the width, or `size` where the width is the machine's; just the
/// numbers of 32 and 64 bits, those of the machine's width and `bool` have one.
pub proof fn constructors_are_named_for_their_type(kind: TyKind)
    ensures
        match kind {
            TyKind::Uint { bits: Some(bits) } => ctor_of(kind) == (if bits == 32 || bits == 64 {
                Some(seq!['u'] + text::decimal(bits as nat))
            } else {
                None
            }),
            TyKind::Int { bits: Some(bits) } => ctor_of(kind) == (if bits == 32 || bits == 64 {
                Some(seq!['i'] + text::decimal(bits as nat))
            } else {
                None
            }),
            TyKind::Float { bits } => ctor_of(kind) == (if bits == 32 || bits == 64 {
                Some(seq!['f'] + text::decimal(bits as nat))
            } else {
                None
            }),
            TyKind::Uint { bits: None } => ctor_of(kind) == Some(seq!['u'] + "size"@),
            TyKind::Int { bits: None } => ctor_of(kind) == Some(seq!['i'] + "size"@),
            TyKind::Bool => ctor_of(kind) == Some("bool"@),
            _ => ctor_of(kind) is None,
        },
{
    reveal_strlit("u32");
    reveal_strlit("u64");
    reveal_strlit("usize");
    reveal_strlit("i32");
    reveal_strlit("i64");
    reveal_strlit("isize");
    reveal_strlit("f32");
    reveal_strlit("f64");
    reveal_strlit("size");
    reveal_with_fuel(text::decimal, 2);
    assert(text::digit(3) == '3' && text::digit(2) == '2' && text::digit(6) == '6' && text::digit(4)
        == '4');
    assert(text::decimal(32) =~= seq!['3', '2']);
    assert(text::decimal(64) =~= seq!['6', '4']);
    assert("u32"@ =~= seq!['u'] + text::decimal(32));
    assert("u64"@ =~= seq!['u'] + text::decimal(64));
    assert("i32"@ =~= seq!['i'] + text::decimal(32));
    assert("i64"@ =~= seq!['i'] + text::decimal(64));
    assert("f32"@ =~= seq!['f'] + text::decimal(32));
    assert("f64"@ =~= seq!['f'] + text::decimal(64));
    assert("usize"@ =~= seq!['u'] + "size"@);
    assert("isize"@ =~= seq!['i'] + "size"@);
}

/// The name that the type is spelled by reaches it: the bare name only where it
/// means the type already or an import is added for it, and else the path through
/// a crate at hand; without such a crate a name that does not mean the type is
/// not used.
pub proof fn spelled_names_reach_the_type(module: Module, nameable: Nameable, status: Bare)
    ensures
        ({
            let spelling = spelled(module, nameable, status);
            &&& status == Bare::Same ==> spelling.name == Some("Binding"@) && spelling.import is None
            &&& spelling.import is Some ==> status == Bare::Free && spelling.name == Some(
                "Binding"@,
            ) && (nameable.waterui && spelling.import == use_part(module, "waterui::Binding"@)
                || !nameable.waterui && nameable.nami && spelling.import == use_part(
                module,
                "nami::Binding"@,
            ))
            &&& status != Bare::Same && spelling.import is None && spelling.name is Some ==> (
            nameable.waterui && spelling.name == Some("waterui::Binding"@) || !nameable.waterui
                && nameable.nami && spelling.name == Some("nami::Binding"@))
            &&& status != Bare::Same && !nameable.waterui && !nameable.nami ==> spelling.name is None
            &&& nameable.waterui || nameable.nami ==> spelling.name is Some
        }),
{
    reveal_strlit("waterui");
    reveal_strlit("nami");
    reveal_strlit("::Binding");
    reveal_strlit("waterui::Binding");
    reveal_strlit("nami::Binding");
    assert("waterui"@ + "::Binding"@ =~= "waterui::Binding"@);
    assert("nami"@ + "::Binding"@ =~= "nami::Binding"@);
}

proof fn lemma_stars(n: nat)
    ensures
        stars(n).len() == n,
        forall|i: int| 0 <= i < n ==> #[trigger] stars(n)[i] == '*',
    decreases n,
{
    if n > 0 {
        lemma_stars((n - 1) as nat);
    }
}

/// An operand that is reborrowed through so many derefs is written with as many
/// stars behind a `&`, in front of all of it: a call or an operation is put in
/// parentheses. A `&` that it is written with takes one of them away.
pub proof fn reborrows_are_written_out(
    hir: Hir,
    n: usize,
    source: Seq<char>,
    derefs: usize,
    code: Seq<char>,
)
    requires
        hir.source(n) == Some(source),
        hir.node(n).ty != hir.node(n).adjusted,
        hir.node(n).coercion matches Coercion::Reborrow { derefs: written } && written == derefs,
        coerced(hir, n) == Some(code),
    ensures
        !(hir.kind(n) is AddrOf) ==> {
            &&& code.len() >= 1 + derefs
            &&& code[0] == '&'
            &&& forall|i: int| 1 <= i <= derefs ==> #[trigger] code[i] == '*'
            &&& code.skip(1 + derefs) == (if hir.kind(n) is Path || hir.kind(n) is Field {
                source
            } else {
                "("@ + source + ")"@
            })
        },
        hir.kind(n) matches Kind::AddrOf { mutable: false, raw: false, operand } ==> {
            &&& derefs > 0
            &&& code.len() >= derefs
            &&& code[0] == '&'
            &&& forall|i: int| 1 <= i < derefs ==> #[trigger] code[i] == '*'
            &&& hir.source_between(
                n,
                hir.node(operand).span.lo,
                hir.node(operand).span.hi,
            ) == Some(code.skip(derefs as int))
        },
{
    reveal_strlit("&");
    lemma_stars(derefs as nat);
    if derefs > 0 {
        lemma_stars((derefs - 1) as nat);
    }
    if let Some((left, inner)) = reborrowed(hir, n, source, derefs as nat) {
        lemma_stars(left);
        let rest = if derefs_bare(hir.kind(n)) {
            inner
        } else {
            "("@ + inner + ")"@
        };
        assert(code == "&"@ + stars(left) + rest);
        assert(code.skip(left as int + 1) =~= rest);
        assert forall|i: int| 1 <= i <= left implies #[trigger] code[i] == '*' by {
            assert(code[i] == stars(left)[i - 1]);
        }
    }
}

} // verus!
