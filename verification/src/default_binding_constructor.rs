//! `default_binding_constructor`: `binding(..)` or `Binding::container(..)` seeded
//! with the type's default, which is `Binding::<T>::default()`.

use crate::binding;
use crate::binding::{BindingAnnotation, GenericCtorCall, Nameable, Spelling};
use crate::diagnostics;
use crate::diagnostics::{Applicability, Diagnostic, DiagnosticView, RemarkView};
use crate::hir;
use crate::hir::{DefKind, Hir, Kind, Namespace, PathArgs, Res, Span, Trait};
use crate::imports;
use crate::imports::{Bare, Module, Query};
use crate::known::Known;
use crate::lint::Lint;
use crate::manual_signal_combinator;
use crate::text;
use vstd::prelude::*;

verus! {

/// The source of a node that no macro wrote.
pub open spec fn own_source(hir: Hir, n: usize) -> Option<Seq<char>> {
    if hir.node(n).span.expanded() {
        None
    } else {
        hir.source(n)
    }
}

/// The node's source text for spelling `T`; nothing when it is in an expansion:
/// the text would come from a macro's body and name types the call site cannot
/// resolve.
pub fn text_at(hir: &Hir, n: usize) -> (r: Option<String>)
    requires
        hir.has(n),
    ensures
        text::text_opt(r) == own_source(*hir, n),
{
    if hir.nodes[n].span.from_expansion() {
        return None;
    }
    hir.snippet_opt(n)
}

/// The kinds of item that a type's name stands for.
pub open spec fn names_type(kind: DefKind) -> bool {
    kind == DefKind::Struct || kind == DefKind::Enum || kind == DefKind::Union || kind
        == DefKind::TyAlias || kind == DefKind::AssocTy || kind == DefKind::ForeignTy
}

fn is_type_kind(kind: DefKind) -> (r: bool)
    ensures
        r == names_type(kind),
{
    match kind {
        DefKind::Struct | DefKind::Enum | DefKind::Union | DefKind::TyAlias | DefKind::AssocTy
        | DefKind::ForeignTy => true,
        _ => false,
    }
}

/// How many type arguments a path gives.
pub open spec fn provided(args: Option<PathArgs>) -> usize {
    match args {
        Some(args) => args.count,
        None => 0,
    }
}

/// The written type as text for `T`.
pub open spec fn spelled_type(hir: Hir, ty: usize) -> Option<Seq<char>>
    decreases ty,
{
    match hir.kind(ty) {
        Kind::PathTy { res } => match hir.node(ty).qself {
            Some(qself) => if qself < ty {
                spelled_type(hir, qself)
            } else {
                None
            },
            None => match res {
                Res::Def { def: _, kind } => if kind == DefKind::TyParam || (names_type(kind)
                    && provided(hir.node(ty).path_args) >= hir.node(ty).required_args) {
                    own_source(hir, ty)
                } else {
                    None
                },
                _ => None,
            },
        },
        _ => None,
    }
}

/// The written type as source text for `T`, following a qualified self (the `T`
/// of `<T as Trait>`) and requiring the path to spell every generic the type
/// needs.
pub fn ty_text(hir: &Hir, ty: usize) -> (r: Option<String>)
    requires
        hir.wf(),
        hir.has(ty),
    ensures
        text::text_opt(r) == spelled_type(*hir, ty),
    decreases ty,
{
    proof {
        assert(hir.node_wf(ty));
    }
    let res: Res = match &hir.nodes[ty].kind {
        Kind::PathTy { res } => *res,
        _ => {
            return None;
        },
    };
    if let Some(qself) = hir.nodes[ty].qself {
        return ty_text(hir, qself);
    }
    let kind: DefKind = match res {
        Res::Def { kind, .. } => kind,
        _ => {
            return None;
        },
    };
    if kind == DefKind::TyParam {
        return text_at(hir, ty);
    }
    let given: usize = match &hir.nodes[ty].path_args {
        Some(args) => args.count,
        None => 0,
    };
    if is_type_kind(kind) && given >= hir.nodes[ty].required_args {
        text_at(hir, ty)
    } else {
        None
    }
}

/// `T` as a call's self type spells it.
pub open spec fn self_type(hir: Hir, func: usize) -> Option<Seq<char>> {
    match hir.node(func).qself {
        Some(ty) => if hir.kind(func) is Path {
            spelled_type(hir, ty)
        } else {
            None
        },
        None => None,
    }
}

/// `T` as the call's self type spells it: `WindowState` in
/// `WindowState::default()`, `Vec::<Item>` in `Vec::<Item>::new()`, `T` in
/// `<T as Default>::default()`. Nothing when the path has no self type
/// (`Default::default()` spells the trait, not `T`), or when that names a type
/// whose required generics the path does not give (`HashMap::new()` cannot spell
/// `HashMap<K, V>`).
pub fn self_ty_text(hir: &Hir, func: usize) -> (r: Option<String>)
    requires
        hir.wf(),
        hir.has(func),
    ensures
        text::text_opt(r) == self_type(*hir, func),
{
    proof {
        assert(hir.node_wf(func));
    }
    match &hir.nodes[func].kind {
        Kind::Path { .. } => match hir.nodes[func].qself {
            Some(ty) => ty_text(hir, ty),
            None => None,
        },
        _ => None,
    }
}

/// The inherent `new`s that make their type's default.
pub open spec fn default_news() -> Seq<Known> {
    seq![
        Known::StringNew,
        Known::VecNew,
        Known::VecDequeNew,
        Known::HashMapNew,
        Known::HashSetNew,
        Known::BTreeMapNew,
        Known::BTreeSetNew,
    ]
}

/// The function makes its type's default without an argument.
pub open spec fn makes_default(hir: Hir, func: usize) -> bool {
    match hir.kind(func) {
        Kind::Path { plain: _, segments: _, res: Res::Def { def, kind } } => {
            &&& kind == DefKind::AssocFn
            &&& hir.is_def(def, Known::DefaultFn) || (hir.node(func).qself is Some && hir.def_in(
                def,
                default_news(),
            ))
        },
        _ => false,
    }
}

/// Whether the callee of a zero-argument call is `Default::default`, or the
/// inherent `new` of a std type whose `new` produces its `Default`
/// (`String::new()`, `Vec::new()`, `HashMap::new()`, and the like; `vec![]`
/// lowers to `Vec::new()`).
pub fn is_default_fn(hir: &Hir, func: usize) -> (r: bool)
    requires
        hir.has(func),
    ensures
        r == makes_default(*hir, func),
{
    let news = [
        Known::StringNew,
        Known::VecNew,
        Known::VecDequeNew,
        Known::HashMapNew,
        Known::HashSetNew,
        Known::BTreeMapNew,
        Known::BTreeSetNew,
    ];
    proof {
        assert(news@ =~= default_news());
    }
    match &hir.nodes[func].kind {
        Kind::Path { res: Res::Def { def, kind }, .. } => *kind == DefKind::AssocFn && (
        hir.def_path_eq(*def, Known::DefaultFn) || (hir.nodes[func].qself.is_some()
            && hir.def_path_in(*def, &news))),
        _ => false,
    }
}

/// The source of generic arguments that no macro wrote.
pub open spec fn args_source(args: PathArgs) -> Option<Seq<char>> {
    if args.span.expanded() {
        None
    } else {
        text::text_opt(args.text)
    }
}

/// `Option<..>` with the arguments of `None::<..>`.
pub open spec fn none_type(hir: Hir, module: Module, option: Option<usize>, n: usize) -> Option<Seq<char>> {
    match hir.node(n).path_args {
        Some(args) => match args_source(args) {
            Some(source) => if option is Some && imports::bare_meaning(
                hir,
                module,
                n,
                hir.node(n).span.lo,
                "Option"@,
                Namespace::Type,
                option,
            ) == Bare::Same {
                Some("Option"@ + source)
            } else {
                None
            },
            None => None,
        },
        None => None,
    }
}

/// `None::<u8>` spells its `T` as `Option<u8>`: the variant's generic arguments
/// moved onto the enum name. A bare `None`, or a call site where a bare `Option`
/// would not resolve to the option enum, spells nothing.
pub fn none_ty_text(hir: &Hir, module: &Module, option: Option<usize>, n: usize) -> (r: Option<String>)
    requires
        hir.wf(),
        hir.has(n),
    ensures
        text::text_opt(r) == none_type(*hir, *module, option, n),
{
    if option.is_none() {
        return None;
    }
    let status: Bare = imports::bare_status(
        hir,
        module,
        n,
        &Query {
            pos: hir.nodes[n].span.lo,
            name: "Option",
            ns: Namespace::Type,
            target: option,
        },
    );
    if status != Bare::Same {
        return None;
    }
    match &hir.nodes[n].path_args {
        Some(args) => {
            if args.span.from_expansion() {
                return None;
            }
            match &args.text {
                Some(source) => Some(text::cat("Option", source.as_str())),
                None => None,
            }
        },
        None => None,
    }
}

/// How the seed spells `T`, where it is a default value.
pub open spec fn seed_of(hir: Hir, module: Module, option: Option<usize>, n: usize) -> Option<
    Option<Seq<char>>,
> {
    match hir.kind(n) {
        Kind::Call { func, args } => if args@.len() == 0 && makes_default(hir, func) {
            Some(self_type(hir, func))
        } else {
            None
        },
        Kind::Path { .. } => if manual_signal_combinator::constructs(hir, n, Known::OptionNone) {
            Some(none_type(hir, module, option, n))
        } else {
            None
        },
        _ => None,
    }
}

/// How the argument spells `T`, where it is one of the default-value shapes the
/// lint rewrites: an inner nothing for a shape that does not name `T`
/// (`Default::default()`, a bare `None`, an under-specified `HashMap::new()`, or
/// a spelling that lives in a macro definition), an outer one for an argument
/// that is not a default value.
pub fn default_seed(hir: &Hir, module: &Module, option: Option<usize>, n: usize) -> (r: Option<
    Option<String>,
>)
    requires
        hir.wf(),
        hir.has(n),
    ensures
        match r {
            Some(text) => seed_of(*hir, *module, option, n) == Some(text::text_opt(text)),
            None => seed_of(*hir, *module, option, n) is None,
        },
{
    proof {
        assert(hir.node_wf(n));
    }
    match &hir.nodes[n].kind {
        Kind::Call { func, args } => if args.len() == 0 && is_default_fn(hir, *func) {
            Some(self_ty_text(hir, *func))
        } else {
            None
        },
        Kind::Path { .. } => if manual_signal_combinator::is_ctor(hir, n, Known::OptionNone) {
            Some(none_ty_text(hir, module, option, n))
        } else {
            None
        },
        _ => None,
    }
}

/// The first of the types from `i` on whose source can be read.
pub open spec fn readable_from(hir: Hir, types: Seq<usize>, i: int) -> Option<Seq<char>>
    decreases types.len() - i,
{
    if i < 0 || i >= types.len() {
        None
    } else {
        match own_source(hir, types[i]) {
            Some(source) => Some(source),
            None => readable_from(hir, types, i + 1),
        }
    }
}

/// The first type among generic arguments.
pub open spec fn first_type(hir: Hir, args: Option<PathArgs>) -> Option<Seq<char>> {
    match args {
        Some(args) => readable_from(hir, args.types@, 0),
        None => None,
    }
}

fn readable_type(hir: &Hir, types: &Vec<usize>) -> (r: Option<String>)
    requires
        hir::all_below(types@, hir.nodes@.len() as int),
    ensures
        text::text_opt(r) == readable_from(*hir, types@, 0),
{
    let mut i: usize = 0;
    while i < types.len()
        invariant
            i <= types.len(),
            hir::all_below(types@, hir.nodes@.len() as int),
            readable_from(*hir, types@, 0) == readable_from(*hir, types@, i as int),
        decreases types.len() - i,
    {
        if let Some(source) = text_at(hir, types[i]) {
            return Some(source);
        }
        i = i + 1;
    }
    None
}

/// The source text of the first type generic argument of a node's path: `T` in
/// `::<T>`. An inferred one (`_`) spells nothing.
pub fn first_ty_arg(hir: &Hir, n: usize) -> (r: Option<String>)
    requires
        hir.wf(),
        hir.has(n),
    ensures
        text::text_opt(r) == first_type(*hir, hir.node(n).path_args),
{
    proof {
        assert(hir.node_wf(n));
    }
    match &hir.nodes[n].path_args {
        Some(args) => readable_type(hir, &args.types),
        None => None,
    }
}

/// `T` from a call's own generics.
pub open spec fn call_type(hir: Hir, func: usize) -> Option<Seq<char>> {
    match hir.kind(func) {
        Kind::Path { .. } => match hir.node(func).qself {
            None => first_type(hir, hir.node(func).path_args),
            Some(ty) => if hir.kind(ty) is PathTy {
                first_type(hir, hir.node(ty).path_args)
            } else {
                None
            },
        },
        _ => None,
    }
}

/// `T` from the call's own generics: `binding::<T>`'s turbofish or the
/// `Binding::<T>` in `Binding::<T>::container`.
pub fn call_ty_text(hir: &Hir, func: usize) -> (r: Option<String>)
    requires
        hir.wf(),
        hir.has(func),
    ensures
        text::text_opt(r) == call_type(*hir, func),
{
    proof {
        assert(hir.node_wf(func));
    }
    match &hir.nodes[func].kind {
        Kind::Path { .. } => match hir.nodes[func].qself {
            None => first_ty_arg(hir, func),
            Some(ty) => match &hir.nodes[ty].kind {
                Kind::PathTy { .. } => first_ty_arg(hir, ty),
                _ => None,
            },
        },
        _ => None,
    }
}

/// `T` as it is spelled somewhere around the call.
pub open spec fn value_text(
    hir: Hir,
    seed: Option<Seq<char>>,
    func: usize,
    annotation: Option<BindingAnnotation>,
) -> Option<Seq<char>> {
    match (seed, call_type(hir, func), annotation) {
        (Some(text), _, _) => Some(text),
        (None, Some(text), _) => Some(text),
        (None, None, Some(annotation)) => first_type(hir, hir.node(annotation.ty).path_args),
        (None, None, None) => None,
    }
}

fn spelled_value(
    hir: &Hir,
    seed: Option<String>,
    func: usize,
    annotation: Option<BindingAnnotation>,
) -> (r: Option<String>)
    requires
        hir.wf(),
        hir.has(func),
        annotation matches Some(found) ==> hir.has(found.ty),
    ensures
        text::text_opt(r) == value_text(*hir, text::text_opt(seed), func, annotation),
{
    if seed.is_some() {
        return seed;
    }
    let own: Option<String> = call_ty_text(hir, func);
    if own.is_some() {
        return own;
    }
    match annotation {
        Some(annotation) => first_ty_arg(hir, annotation.ty),
        None => None,
    }
}

/// The turbofish for `T`.
pub open spec fn turbofish(value: Option<Seq<char>>) -> Seq<char> {
    match value {
        Some(text) => "::<"@ + text + ">"@,
        None => ""@,
    }
}

/// What the fix changes.
pub open spec fn fix_parts(
    import: Option<(Span, Seq<char>)>,
    span: Span,
    code: Seq<char>,
    annotation: Option<BindingAnnotation>,
) -> Seq<(Span, Seq<char>)> {
    let head = (match import {
        Some(part) => seq![part],
        None => seq![],
    }).push((span, code));
    match annotation {
        Some(annotation) => head.push((annotation.erase, ""@)),
        None => head,
    }
}

/// The call is one that the lint looks at: a default of `T` itself, for a type
/// without a constructor of its own.
pub open spec fn seeded(hir: Hir, call: GenericCtorCall) -> bool {
    &&& binding::ctor_of(hir.ty(call.value).kind) is None
    &&& hir.node(call.arg).ty == call.value
    &&& hir.ty(call.value).implements(Trait::Default, seq![])
}

/// What is said of a call seeded with `T`'s default.
pub open spec fn report_of(
    hir: Hir,
    module: Module,
    nameable: Nameable,
    n: usize,
    call: GenericCtorCall,
    seed: Option<Seq<char>>,
) -> DiagnosticView {
    let span = hir.node(n).span;
    let annotation = binding::annotation_of(hir, n);
    let value = value_text(hir, seed, call.func, annotation);
    let spelling = binding::name_at(hir, module, nameable, n, span.lo, call.adt);
    DiagnosticView::bare(
        Lint::DefaultBindingConstructor,
        span,
        "this binding is seeded with its type's default"@,
    ).with(
        match spelling.name {
            Some(name) => {
                let code = name + turbofish(value) + "::default()"@;
                RemarkView::Multipart {
                    label: "use `"@ + code + "`"@,
                    parts: fix_parts(spelling.import, span, code, annotation),
                    applicability: if value is Some {
                        spelling.applicability
                    } else {
                        Applicability::MaybeIncorrect
                    },
                }
            },
            None => RemarkView::Help("use `Binding"@ + turbofish(value) + "::default()`"@),
        },
    )
}

/// What is said of an expression.
pub open spec fn finding_at(hir: Hir, module: Module, nameable: Nameable, option: Option<usize>, n: usize) -> Option<
    DiagnosticView,
> {
    match binding::ctor_call(hir, n) {
        Some(call) => match seed_of(hir, module, option, call.arg) {
            Some(seed) => if seeded(hir, call) {
                Some(report_of(hir, module, nameable, n, call, seed))
            } else {
                None
            },
            None => None,
        },
        None => None,
    }
}

fn report(
    hir: &Hir,
    module: &Module,
    nameable: Nameable,
    n: usize,
    call: GenericCtorCall,
    seed: Option<String>,
) -> (r: Diagnostic)
    requires
        hir.wf(),
        hir.has(n),
        hir.has(call.func),
    ensures
        r@ == report_of(*hir, *module, nameable, n, call, text::text_opt(seed)),
{
    let span: Span = hir.nodes[n].span;
    let annotation: Option<BindingAnnotation> = binding::binding_annotation(hir, n);
    let value: Option<String> = spelled_value(hir, seed, call.func, annotation);
    let known: bool = value.is_some();
    let generics: String = match value {
        Some(text) => text::cat3("::<", text.as_str(), ">"),
        None => "".to_owned(),
    };
    let spelling: Spelling = binding::binding_name(hir, module, nameable, n, span.lo, call.adt);
    let mut found: Diagnostic = Diagnostic::bare(
        Lint::DefaultBindingConstructor,
        span,
        "this binding is seeded with its type's default",
    );
    match spelling.name {
        Some(name) => {
            let code: String = text::cat3(name.as_str(), generics.as_str(), "::default()");
            let label: String = text::cat3("use `", code.as_str(), "`");
            let mut parts: Vec<(Span, String)> = Vec::new();
            proof {
                assert(diagnostics::part_views(parts@) =~= seq![]);
            }
            if let Some((at, import)) = spelling.import {
                let ghost part = (at, import@);
                diagnostics::push_part(&mut parts, at, import);
                proof {
                    assert(diagnostics::part_views(parts@) =~= seq![part]);
                }
            }
            diagnostics::push_part(&mut parts, span, code);
            if let Some(annotation) = annotation {
                diagnostics::push_part(&mut parts, annotation.erase, "".to_owned());
            }
            found.multipart_suggestion(
                label.as_str(),
                parts,
                if known {
                    spelling.applicability
                } else {
                    Applicability::MaybeIncorrect
                },
            );
        },
        None => {
            found.help(text::cat3("use `Binding", generics.as_str(), "::default()`"));
        },
    }
    found
}

/// Flags `binding(..)` and `Binding::container(..)` calls seeded with the
/// binding type's default. `binding(0)` and `binding(false)` are left to the
/// dedicated constructors, and the seed must be a default of `T` itself, not
/// another `Into<T>` type's. When nothing spells `T`, `Binding::default()`
/// compiles only when a later use pins `T`, so it is not machine-applicable.
/// `option` is the `Option` enum, where there is one.
pub fn check_expr(hir: &Hir, module: &Module, nameable: Nameable, option: Option<usize>, n: usize) -> (r:
    Option<Diagnostic>)
    requires
        hir.wf(),
        hir.has(n),
    ensures
        diagnostics::found(r) == finding_at(*hir, *module, nameable, option, n),
{
    let call: GenericCtorCall = match binding::generic_ctor_call(hir, n) {
        Some(call) => call,
        None => {
            return None;
        },
    };
    if binding::dedicated_ctor(&hir.types[call.value].kind).is_some() || hir.nodes[call.arg].ty
        != call.value {
        return None;
    }
    let seed: Option<String> = match default_seed(hir, module, option, call.arg) {
        Some(seed) => seed,
        None => {
            return None;
        },
    };
    if !hir.types[call.value].implements_trait(Trait::Default) {
        return None;
    }
    Some(report(hir, module, nameable, n, call, seed))
}

/// The binding that is proposed holds the default of the type that the seed was
/// of: the one that the seed names, else the one that the call names, else the
/// one that the `let` is annotated with; and the annotation goes with it.
pub proof fn default_bindings_keep_their_type(
    hir: Hir,
    module: Module,
    nameable: Nameable,
    n: usize,
    call: GenericCtorCall,
    seed: Option<Seq<char>>,
)
    ensures
        ({
            let finding = report_of(hir, module, nameable, n, call, seed);
            let named = call_type(hir, call.func);
            let annotation = binding::annotation_of(hir, n);
            let value = match (seed, named) {
                (Some(text), _) => Some(text),
                (None, Some(text)) => Some(text),
                (None, None) => match annotation {
                    Some(annotation) => first_type(hir, hir.node(annotation.ty).path_args),
                    None => None,
                },
            };
            let spelling = binding::name_at(
                hir,
                module,
                nameable,
                n,
                hir.node(n).span.lo,
                call.adt,
            );
            &&& finding.span == hir.node(n).span
            &&& finding.remarks.len() == 1
            &&& spelling.name matches Some(name) ==> {
                &&& finding.remarks[0] matches RemarkView::Multipart {
                    label: _,
                    parts,
                    applicability: _,
                }
                &&& parts.contains(
                    (
                        hir.node(n).span,
                        match value {
                            Some(text) => name + "::<"@ + text + ">::default()"@,
                            None => name + "::default()"@,
                        },
                    ),
                )
                &&& spelling.import matches Some(part) ==> parts.contains(part)
                &&& annotation matches Some(annotation) ==> parts.contains(
                    (annotation.erase, ""@),
                )
            }
        }),
{
    reveal_strlit("");
    reveal_strlit(">");
    reveal_strlit("::default()");
    reveal_strlit(">::default()");
    let annotation = binding::annotation_of(hir, n);
    let value = value_text(hir, seed, call.func, annotation);
    let spelling = binding::name_at(hir, module, nameable, n, hir.node(n).span.lo, call.adt);
    if let Some(name) = spelling.name {
        assert(">"@ + "::default()"@ =~= ">::default()"@);
        let code = name + turbofish(value) + "::default()"@;
        match value {
            Some(text) => {
                assert(code =~= name + "::<"@ + text + ">::default()"@);
            },
            None => {
                assert(code =~= name + "::default()"@);
            },
        }
        let parts = fix_parts(spelling.import, hir.node(n).span, code, annotation);
        let at: int = if spelling.import is Some {
            1
        } else {
            0
        };
        assert(parts[at] == (hir.node(n).span, code));
        if spelling.import is Some {
            assert(parts[0] == spelling.import->0);
        }
        if annotation is Some {
            assert(parts[at + 1] == (annotation->0.erase, ""@));
        }
    }
}

/// Only a seed that is its type's default is reported: a call without operands of
/// `Default::default` or of a constructor that makes the empty value, or `None`.
pub proof fn seeds_are_defaults(hir: Hir, module: Module, option: Option<usize>, n: usize)
    ensures
        seed_of(hir, module, option, n) is Some ==> match hir.kind(n) {
            Kind::Call { func, args } => args@.len() == 0 && (hir.kind(func) matches Kind::Path {
                plain: _,
                segments: _,
                res: Res::Def { def, kind: _ },
            } && (hir.is_def(def, Known::DefaultFn) || hir.def_in(
                def,
                seq![
                    Known::StringNew,
                    Known::VecNew,
                    Known::VecDequeNew,
                    Known::HashMapNew,
                    Known::HashSetNew,
                    Known::BTreeMapNew,
                    Known::BTreeSetNew,
                ],
            ))),
            Kind::Path { plain: _, segments: _, res: Res::Def { def, kind: _ } } => hir.is_def(
                hir.target(def),
                Known::OptionNone,
            ),
            _ => false,
        },
{
    assert(default_news() =~= seq![
        Known::StringNew,
        Known::VecNew,
        Known::VecDequeNew,
        Known::HashMapNew,
        Known::HashSetNew,
        Known::BTreeMapNew,
        Known::BTreeSetNew,
    ]);
}

} // verus!
