//! The code under inspection: a tree of nodes with what the compiler found out
//! about each of them.
//!
//! A node is known by its index. The nodes below it come before it, and its
//! parent comes after it.

use crate::format_args::FormatArgs;
use crate::known;
use crate::known::Known;
use crate::text;
use vstd::prelude::*;
use vstd::utf8::*;

verus! {

/// A place in the source: a byte range, and the expansion that made it (0 for
/// text that a person wrote).
#[derive(Clone, Copy, Debug, PartialEq, Eq, Structural)]
pub struct Span {
    pub lo: u32,
    pub hi: u32,
    pub ctxt: u32,
}

impl Span {
    /// The code comes out of a macro.
    pub open spec fn expanded(self) -> bool {
        self.ctxt != 0
    }

    /// Whether the code comes out of a macro.
    pub fn from_expansion(self) -> (r: bool)
        ensures
            r == self.expanded(),
    {
        self.ctxt != 0
    }

    /// The span that starts at `lo` instead; the ends swap if it lies behind.
    pub open spec fn from_lo(self, lo: u32) -> Span {
        if lo <= self.hi {
            Span { lo, hi: self.hi, ctxt: self.ctxt }
        } else {
            Span { lo: self.hi, hi: lo, ctxt: self.ctxt }
        }
    }

    /// The span that starts at `lo` instead.
    pub fn with_lo(self, lo: u32) -> (r: Span)
        ensures
            r == self.from_lo(lo),
    {
        if lo <= self.hi {
            Span { lo, hi: self.hi, ctxt: self.ctxt }
        } else {
            Span { lo: self.hi, hi: lo, ctxt: self.ctxt }
        }
    }

    /// The empty span where this one starts.
    pub open spec fn start(self) -> Span {
        Span { hi: self.lo, ..self }
    }

    /// The empty span where this one ends.
    pub open spec fn end(self) -> Span {
        Span { lo: self.hi, ..self }
    }

    /// The span that ends at `hi` instead; the ends swap if it lies before.
    pub open spec fn up_to_hi(self, hi: u32) -> Span {
        if self.lo <= hi {
            Span { lo: self.lo, hi, ctxt: self.ctxt }
        } else {
            Span { lo: hi, hi: self.lo, ctxt: self.ctxt }
        }
    }

    /// The span that ends at `hi` instead.
    pub fn with_hi(self, hi: u32) -> (r: Span)
        ensures
            r == self.up_to_hi(hi),
    {
        if self.lo <= hi {
            Span { lo: self.lo, hi, ctxt: self.ctxt }
        } else {
            Span { lo: hi, hi: self.lo, ctxt: self.ctxt }
        }
    }

    /// The span from this one's start to the other's end.
    pub open spec fn through(self, end: Span) -> Span {
        Span {
            lo: if self.lo <= end.lo {
                self.lo
            } else {
                end.lo
            },
            hi: if self.hi <= end.hi {
                end.hi
            } else {
                self.hi
            },
            ctxt: if self.ctxt == 0 {
                end.ctxt
            } else {
                self.ctxt
            },
        }
    }

    /// The span that covers this one and the other.
    pub fn to(self, end: Span) -> (r: Span)
        ensures
            r == self.through(end),
    {
        Span {
            lo: if self.lo <= end.lo {
                self.lo
            } else {
                end.lo
            },
            hi: if self.hi <= end.hi {
                end.hi
            } else {
                self.hi
            },
            ctxt: if self.ctxt == 0 {
                end.ctxt
            } else {
                self.ctxt
            },
        }
    }

    /// The empty span where this one starts.
    pub fn shrink_to_lo(self) -> (r: Span)
        ensures
            r == self.start(),
    {
        Span { lo: self.lo, hi: self.lo, ctxt: self.ctxt }
    }

    /// The empty span where this one ends.
    pub fn shrink_to_hi(self) -> (r: Span)
        ensures
            r == self.end(),
    {
        Span { lo: self.hi, hi: self.hi, ctxt: self.ctxt }
    }
}

/// A name as it stands in the source.
#[derive(Debug)]
pub struct Ident {
    /// The name itself.
    pub name: String,
    /// The name as it must be written, with `r#` where that is needed.
    pub written: String,
    /// It is an ordinary name: no keyword, `self` or `_`.
    pub usable: bool,
    pub span: Span,
}

/// A binary operator.
#[derive(Clone, Copy, Debug, PartialEq, Eq, Structural)]
pub enum BinOp {
    Add,
    Sub,
    Mul,
    Div,
    Rem,
    BitAnd,
    BitOr,
    BitXor,
    Shl,
    Shr,
    And,
    Or,
    Eq,
    Ne,
    Lt,
    Le,
    Gt,
    Ge,
}

/// A unary operator.
#[derive(Clone, Copy, Debug, PartialEq, Eq, Structural)]
pub enum UnOp {
    Deref,
    Not,
    Neg,
}

/// What a path resolves to.
#[derive(Clone, Copy, Debug, PartialEq, Eq, Structural)]
pub enum Res {
    /// The local bound by the binding with this id.
    Local(usize),
    /// A function, method or other item, by its place in `Hir::defs`.
    Def { def: usize, kind: DefKind },
    Other,
}

/// The kind of an item.
#[derive(Clone, Copy, Debug, PartialEq, Eq, Structural)]
pub enum DefKind {
    Fn,
    AssocFn,
    Ctor,
    Struct,
    Enum,
    Union,
    TyAlias,
    AssocTy,
    ForeignTy,
    TyParam,
    Const,
    Static,
    Other,
}

/// The return type that a function declares.
#[derive(Debug)]
pub enum RetTy {
    /// `impl ..`, by the traits that bound it.
    Opaque { bounds: Vec<usize> },
    /// A path to an item, and where it stands.
    Path { def: usize, span: Span },
    /// Anything else, or none that is written.
    Other,
}

/// A literal.
#[derive(Debug)]
pub enum Lit {
    Int { value: u128, suffixed: bool },
    /// A float, by its digits as written, and whether they spell zero.
    Float { digits: String, zero: bool, suffixed: bool },
    Str(String),
    Bool(bool),
    Char(char),
    Byte(u8),
    Other,
}

/// What a `match` was written as.
#[derive(Clone, Copy, Debug, PartialEq, Eq, Structural)]
pub enum MatchSource {
    Normal,
    Await,
    ForLoop,
    Other,
}

/// What a node is, with the nodes it is made of.
#[derive(Debug)]
pub enum Kind {
    // Expressions.
    Array { elements: Vec<usize> },
    Tup { elements: Vec<usize> },
    Repeat { element: usize },
    Call { func: usize, args: Vec<usize> },
    MethodCall { name: Ident, receiver: usize, args: Vec<usize> },
    Binary { op: BinOp, lhs: usize, rhs: usize },
    Unary { op: UnOp, operand: usize },
    Assign { lhs: usize, rhs: usize },
    AssignOp { op: BinOp, lhs: usize, rhs: usize },
    Lit { lit: Lit },
    Cast { operand: usize },
    DropTemps { inner: usize },
    Let { pat: usize, init: usize },
    If { cond: usize, then: usize, els: Option<usize> },
    Loop { block: usize },
    Match { scrutinee: usize, arms: Vec<usize>, source: MatchSource },
    Closure { params: Vec<usize>, body: usize, by_move: bool },
    BlockExpr { block: usize },
    Field { base: usize, name: Ident },
    Index { base: usize, index: usize },
    /// A path; `plain` when it has no self type or qualifier in front.
    Path { plain: bool, segments: Vec<Ident>, res: Res },
    AddrOf { mutable: bool, raw: bool, operand: usize },
    Ret { value: Option<usize> },
    Become { value: usize },
    Break { value: Option<usize> },
    Yield { value: usize },
    Struct { fields: Vec<usize>, base: Option<usize> },
    ConstBlock { body: usize },
    OtherExpr { parts: Vec<usize> },
    // Patterns.
    /// A binding; `id` is that of the first binding of its name in an
    /// or-pattern, its own elsewhere.
    Binding { name: Ident, id: usize, sub: Option<usize> },
    Wild,
    TuplePat { parts: Vec<usize> },
    TupleStructPat { parts: Vec<usize> },
    /// `&p`, `box p` or `deref!(p)`.
    PeelPat { inner: usize },
    OrPat { parts: Vec<usize> },
    OtherPat { parts: Vec<usize> },
    // The rest.
    Block { stmts: Vec<usize>, tail: Option<usize> },
    Semi { expr: usize },
    ExprStmt { expr: usize },
    LetDecl { local: usize },
    ItemStmt { item: usize },
    LetStmt { pat: usize, ty: Option<usize>, init: Option<usize>, els: Option<usize> },
    Arm { pat: usize, guard: Option<usize>, body: usize },
    Param { pat: usize },
    FieldInit { name: Ident, value: usize },
    Item { item: ItemKind, params: Vec<usize>, body: Option<usize> },
    ImplItem { inherent: bool, params: Vec<usize>, body: Option<usize> },
    TraitItem { params: Vec<usize>, body: Option<usize> },
    ForeignItem,
    Crate,
    /// The type `&T`, as written.
    RefTy { inner: usize },
    /// A type written as a path.
    PathTy { res: Res },
    Other { parts: Vec<usize> },
}

/// The namespace that a name lives in.
#[derive(Clone, Copy, Debug, PartialEq, Eq, Structural)]
pub enum Namespace {
    Type,
    Value,
    Macro,
}

/// What a name stands for: an item, by its place in `Hir::defs`, or something
/// built in that is none.
#[derive(Clone, Copy, Debug, PartialEq, Eq, Structural)]
pub struct Meaning {
    pub def: Option<usize>,
}

/// What a single `use` imports, per namespace.
#[derive(Clone, Copy, Debug, PartialEq, Eq, Structural)]
pub struct UseRes {
    pub type_ns: Option<Meaning>,
    pub value_ns: Option<Meaning>,
    pub macro_ns: Option<Meaning>,
}

/// What an item is, as far as name lookup goes.
#[derive(Debug)]
pub enum ItemKind {
    Glob,
    Single { name: String, res: UseRes },
    /// A `use` that is neither, such as the stem of a list.
    OtherUse,
    Fn { name: String },
    /// Any other item, with its name and namespace where it has them.
    Named { name: String, ns: Namespace },
    Unnamed,
}

/// A generic parameter: its name, and its namespace unless it is a lifetime.
#[derive(Debug)]
pub struct GenericParam {
    pub name: String,
    pub ns: Option<Namespace>,
}

/// A macro invocation that a piece of code comes out of.
#[derive(Clone, Copy, Debug, PartialEq, Eq, Structural)]
pub struct MacroCall {
    /// It is `format!`.
    pub is_format: bool,
    /// It is `text!`.
    pub is_text: bool,
    /// Which expansion it is.
    pub expn: u32,
}

/// The innermost `name!` expansion that a piece of code comes out of.
#[derive(Debug)]
pub struct BangMacro {
    pub name: String,
    pub def: Option<usize>,
}

/// The traits that the lints ask about.
#[derive(Clone, Copy, Debug, PartialEq, Eq, Structural)]
pub enum Trait {
    Clone,
    Copy,
    Fn,
    Extend,
    Default,
    /// The operator trait of `std::ops` behind a binary operator.
    Op(BinOp),
    /// The same over the type itself, with itself as the output.
    OpSelf(BinOp),
    Into,
    /// `nami_core::Signal`.
    Signal,
    /// `IntoF32`, which `IntoSignalF32` converts through.
    IntoF32,
    /// `waterui_core::foundation::id::Identifiable`.
    Identifiable,
    /// `waterui_core::resolve::Resolvable`.
    Resolvable,
    /// `waterui_core::ui::view::View`.
    View,
}

/// A trait that a type implements, with the trait's type arguments.
#[derive(Debug)]
pub struct Impl {
    pub trait_: Trait,
    pub args: Vec<usize>,
}

/// The shape of a type. Types are known by their place in `Hir::types`, and
/// equal types have the same place.
#[derive(Debug)]
pub enum TyKind {
    Bool,
    Char,
    /// A signed integer of so many bits; `None` for `isize`.
    Int { bits: Option<u8> },
    /// An unsigned integer of so many bits; `None` for `usize`.
    Uint { bits: Option<u8> },
    Float { bits: u8 },
    Str,
    Slice { element: usize },
    Ref { inner: usize, mutable: bool },
    /// A struct or enum with its type arguments.
    Adt { def: usize, args: Vec<usize> },
    Tuple { parts: Vec<usize> },
    /// A closure, with the types that it takes.
    Closure { inputs: Vec<usize> },
    /// A type parameter.
    Param,
    /// The type `def` of `self_ty`, such as what an associated type stands for;
    /// `args` are its type arguments, `self_ty` first.
    Alias { self_ty: usize, def: usize, projection: bool, args: Vec<usize> },
    Error,
    /// Any other type, with the types that it is made of.
    Other { parts: Vec<usize> },
}

/// A type, with what the lints ask of it.
#[derive(Debug)]
pub struct Ty {
    pub kind: TyKind,
    /// Inference has left something open.
    pub has_infer: bool,
    /// It mentions a type or const parameter.
    pub has_param: bool,
    /// Every lifetime in it is `'static`.
    pub is_static: bool,
    /// The type as the compiler prints it.
    pub text: String,
    /// What it implements.
    pub impls: Vec<Impl>,
    /// Its `Signal::Output`, where it is a signal.
    pub output: Option<usize>,
    /// The struct that its `Resolvable::Resolved` is, by place in `Hir::defs`.
    pub resolved: Option<usize>,
    /// The trait bounds of parameters that it meets.
    pub meets: Vec<TraitRef>,
    /// The types that auto-deref reaches from it, itself first.
    pub derefs: Vec<usize>,
    /// The functions of its own impls.
    pub methods: Vec<Method>,
    /// It is an `impl Trait` whose type is not known.
    pub opaque: bool,
    /// Its `Signal::Guard`, where that is known.
    pub guard: Option<usize>,
}

/// A trait, by place in `Hir::defs`, with its type arguments.
#[derive(Debug)]
pub struct TraitRef {
    pub def: usize,
    pub args: Vec<usize>,
}

/// A function that a type has of its own.
#[derive(Debug)]
pub struct Method {
    pub name: String,
    /// It takes `self`.
    pub is_method: bool,
    /// What it takes, `self` included.
    pub inputs: Vec<usize>,
    pub output: usize,
}

/// The trait method that a call runs.
#[derive(Debug)]
pub struct TraitCall {
    pub def: usize,
    /// How many type arguments the trait takes.
    pub arity: usize,
    /// The type arguments of the call: the receiver's type, those of the trait,
    /// and those of the method.
    pub args: Vec<usize>,
    /// What the method takes with those arguments, `self` included.
    pub inputs: Vec<usize>,
    pub output: usize,
}

/// An item: the segments of its path, the defining crate's first, and the variant
/// or struct that it constructs where it is a constructor.
#[derive(Debug)]
pub struct Def {
    pub path: Vec<String>,
    pub ctor_of: Option<usize>,
}

/// A trait bound: the trait, by place in `Hir::defs`, and its first type
/// argument.
#[derive(Clone, Copy, Debug, PartialEq, Eq, Structural)]
pub struct Bound {
    pub def: usize,
    pub arg: Option<usize>,
}

/// The types of the bounds come before `n`.
pub open spec fn bounds_below(bounds: Seq<Bound>, n: int) -> bool {
    forall|i: int| 0 <= i < bounds.len() ==> opt_below((#[trigger] bounds[i]).arg, n)
}

/// The types of all the bounds come before `n`.
pub open spec fn all_bounds_below(bounds: Option<Vec<Vec<Bound>>>, n: int) -> bool {
    match bounds {
        Some(bounds) => forall|i: int|
            0 <= i < bounds@.len() ==> bounds_below((#[trigger] bounds@[i])@, n),
        None => true,
    }
}

/// What a closure captures: by value or by reference, and the type.
#[derive(Clone, Copy, Debug, PartialEq, Eq, Structural)]
pub struct Capture {
    pub by_value: bool,
    pub ty: usize,
}

/// The types of the captures come before `n`.
pub open spec fn captures_below(captures: Seq<Capture>, n: int) -> bool {
    forall|i: int| 0 <= i < captures.len() ==> (#[trigger] captures[i]).ty < n
}

/// An expression's source in a suggestion: as it is, and in parentheses where
/// an operand needs them.
#[derive(Debug)]
pub struct Sugg {
    pub plain: String,
    pub operand: String,
}

/// What a function takes and gives back.
#[derive(Debug)]
pub struct FnSig {
    pub inputs: Vec<usize>,
    pub output: usize,
}

/// Where a method is declared.
#[derive(Clone, Copy, Debug, PartialEq, Eq, Structural)]
pub enum Home {
    /// In the trait.
    Trait(usize),
    /// In an impl of the struct or enum, where it is one.
    Inherent(Option<usize>),
    /// In an impl of a trait, or nowhere of these.
    Other,
}

/// The signature of the method that a call runs.
#[derive(Clone, Copy, Debug, PartialEq, Eq, Structural)]
pub struct CallSig {
    /// It takes `&self`.
    pub ref_self: bool,
    pub home: Home,
    /// The return type with the call's type arguments, as declared.
    pub output: usize,
}

/// What the compiler does to an expression's value where it is used.
#[derive(Clone, Copy, Debug, PartialEq, Eq, Structural)]
pub enum Coercion {
    /// Nothing.
    Identity,
    /// It derefs the value so often and borrows the result, shared.
    Reborrow { derefs: usize },
    Other,
}

/// The value of a constant float expression, in integers.
#[derive(Clone, Copy, Debug, PartialEq, Eq, Structural)]
pub struct FloatValue {
    /// It truncated toward zero, as far as that fits; zero where it is no number.
    pub signed: i128,
    /// The same without the negative numbers.
    pub unsigned: u128,
    /// The bit pattern of the nearest `f32`.
    pub bits: u32,
    /// The nearest `n` for which that `f32` is `n / 255`.
    pub byte: u8,
    /// That `f32` is exactly `n / 255`.
    pub on_grid: bool,
}

/// What a closure is.
#[derive(Clone, Copy, Debug, PartialEq, Eq, Structural)]
pub enum ClosureKind {
    /// A closure that is written as one.
    Plain,
    /// What an `async` block or function comes down to.
    Async,
    Other,
}

/// A variable that a closure captures: its name, where it is bound, and the type
/// of what is captured of it.
#[derive(Debug)]
pub struct CapturedVar {
    pub name: String,
    pub span: Span,
    pub ty: usize,
}

/// The types of the variables come before `n`.
pub open spec fn captured_below(captured: Seq<CapturedVar>, n: int) -> bool {
    forall|i: int| 0 <= i < captured.len() ==> (#[trigger] captured[i]).ty < n
}

/// How a translation key is written.
#[derive(Clone, Copy, Debug, PartialEq, Eq, Structural)]
pub enum KeySpace {
    /// As in the catalog: the literal of `Text::localized`.
    Catalog,
    /// As `text!` emits it, with `{#` rewritten to `{`.
    Format,
}

/// A translation key that code names.
#[derive(Debug)]
pub struct TextKey {
    pub text: String,
    pub space: KeySpace,
    pub span: Span,
}

/// A `vec![..]` call with its elements, its place and its source.
#[derive(Debug)]
pub struct VecMacro {
    pub elements: Vec<usize>,
    pub span: Span,
    pub text: Option<String>,
}

/// The elements come before `n`, and byte positions in the source fit 32 bits.
pub open spec fn vec_macro_below(call: Option<VecMacro>, n: int) -> bool {
    match call {
        Some(call) => {
            &&& all_below(call.elements@, n)
            &&& call.text matches Some(source) ==> encode_utf8(source@).len() <= u32::MAX
        },
        None => true,
    }
}

/// A `for` loop: what it iterates over, its body, and its place.
#[derive(Clone, Copy, Debug, PartialEq, Eq, Structural)]
pub struct ForLoop {
    pub arg: usize,
    pub body: usize,
    pub span: Span,
}

/// The generic arguments of a path's last segment.
#[derive(Debug)]
pub struct PathArgs {
    /// The types among them.
    pub types: Vec<usize>,
    /// How many there are besides the lifetimes.
    pub count: usize,
    /// Where they stand, with their brackets.
    pub span: Span,
    /// Their source, where it can be read.
    pub text: Option<String>,
}

/// The types among the arguments come before `n`.
pub open spec fn path_args_below(args: Option<PathArgs>, n: int) -> bool {
    match args {
        Some(args) => all_below(args.types@, n),
        None => true,
    }
}

/// A node, with what the compiler found out about it.
#[derive(Debug)]
pub struct Node {
    pub kind: Kind,
    pub parent: Option<usize>,
    pub span: Span,
    /// The type of an expression or a pattern.
    pub ty: usize,
    /// The type of an expression after auto-deref and auto-borrow.
    pub adjusted: usize,
    /// The source of `span`, where it can be read.
    pub snippet: Option<String>,
    /// The source of an expression as a suggestion writes it.
    pub sugg: Option<Sugg>,
    /// How many auto-derefs the expression goes through.
    pub derefs: usize,
    /// The function that a call runs.
    pub callee: Option<usize>,
    /// That function, or the trait method it implements; of a path, the same for
    /// the function that it names, and of a function's node for itself.
    pub item: Option<usize>,
    /// Of a call, the trait bounds on the parameter that each argument fills.
    pub bounds: Option<Vec<Vec<Bound>>>,
    /// The macro call whose expansion starts with this expression.
    pub mac: Option<MacroCall>,
    /// The outermost macro call that the span comes out of.
    pub root_mac: Option<MacroCall>,
    /// The innermost `name!` expansion that the span comes out of.
    pub bang: Option<BangMacro>,
    /// The format arguments of a `format!` call, by place in `Hir::formats`.
    pub format: Option<usize>,
    /// The expression reads a signal's current value.
    pub snapshot: bool,
    /// The signal that such a read is made on.
    pub get_receiver: Option<usize>,
    /// The expression names a place.
    pub place: bool,
    /// The type whose own method a method call runs.
    pub inherent: Option<usize>,
    /// What a closure captures.
    pub captures: Vec<Capture>,
    /// The source of the outermost macro call that the span comes out of, or of the span itself.
    pub callsite: Option<String>,
    /// The trait method that a method call runs.
    pub trait_call: Option<TraitCall>,
    /// The value of a constant expression of a float type.
    pub float: Option<FloatValue>,
    /// The declared return type of a function or closure.
    pub ret: Option<RetTy>,
    /// The signature of the method that a method call runs.
    pub call_sig: Option<CallSig>,
    /// The signature of the function that a path names, with its type arguments.
    pub fn_sig: Option<FnSig>,
    /// The function or method of this crate that a path names, by its node.
    pub names_fn: Option<usize>,
    /// Expressions of the same class have the same value; one that does work has no class.
    pub value_class: Option<usize>,
    /// A binding that takes a reference (`ref`).
    pub by_ref: bool,
    /// What is done to the expression's value where it is used.
    pub coercion: Coercion,
    /// A block that is `unsafe`, labelled or `try`.
    pub special_block: bool,
    /// The type that a path starts from: `T` of `T::f`, and of `<T as Trait>::f`.
    pub qself: Option<usize>,
    /// The generic arguments of a path's last segment.
    pub path_args: Option<PathArgs>,
    /// Of a path to a type, how many type arguments it cannot do without.
    pub required_args: usize,
    /// The value is borrowed where it is used, without a `&` being written.
    pub borrowed: bool,
    /// A field initializer that is written as its name alone.
    pub shorthand: bool,
    /// A binding that can be assigned to (`mut`).
    pub mutable: bool,
    /// The indentation of the line that the span starts on.
    pub indent: Option<String>,
    /// What a closure is.
    pub closure_kind: ClosureKind,
    /// A function that the test or bench harness calls.
    pub test_wrapper: bool,
    /// Of a call, the arguments that fill a `Handler` or `HandlerOnce` parameter.
    pub handler_args: Vec<usize>,
    /// Of a `for_each` call, the closure that builds a row.
    pub row_builder: Option<usize>,
    /// The variables that a closure captures.
    pub captured: Vec<CapturedVar>,
    /// Of a closure, the span of its parameter list.
    pub decl_span: Span,
    /// The translation key that an expression names.
    pub text_key: Option<TextKey>,
    /// The `vec![..]` call that an expression comes out of.
    pub vec_macro: Option<VecMacro>,
    /// The `for` loop that an expression is lowered from.
    pub for_loop: Option<ForLoop>,
    /// The outermost macro call that the span comes out of, or the span itself.
    pub callsite_span: Span,
    /// The generic parameters of an item.
    pub generics: Vec<GenericParam>,
}

/// The code under inspection. The nodes stand in the order in which the code is
/// read, the parts of each before it.
#[derive(Debug)]
pub struct Hir {
    pub nodes: Vec<Node>,
    pub types: Vec<Ty>,
    pub defs: Vec<Def>,
    pub formats: Vec<FormatArgs>,
}

pub open spec fn all_below(list: Seq<usize>, n: int) -> bool {
    forall|i: int| 0 <= i < list.len() ==> #[trigger] list[i] < n
}

pub open spec fn opt_below(id: Option<usize>, n: int) -> bool {
    match id {
        Some(id) => id < n,
        None => true,
    }
}

pub open spec fn opt_seq(id: Option<usize>) -> Seq<usize> {
    match id {
        Some(id) => seq![id],
        None => seq![],
    }
}

impl Kind {
    /// The nodes that this one is made of, in the order in which they are
    /// visited.
    pub open spec fn children(self) -> Seq<usize> {
        match self {
            Kind::Array { elements } => elements@,
            Kind::Tup { elements } => elements@,
            Kind::Repeat { element } => seq![element],
            Kind::Call { func, args } => seq![func] + args@,
            Kind::MethodCall { name: _, receiver, args } => seq![receiver] + args@,
            Kind::Binary { op: _, lhs, rhs } => seq![lhs, rhs],
            Kind::Unary { op: _, operand } => seq![operand],
            Kind::Assign { lhs, rhs } => seq![rhs, lhs],
            Kind::AssignOp { op: _, lhs, rhs } => seq![rhs, lhs],
            Kind::Lit { lit: _ } => seq![],
            Kind::Cast { operand } => seq![operand],
            Kind::DropTemps { inner } => seq![inner],
            Kind::Let { pat, init } => seq![init, pat],
            Kind::If { cond, then, els } => seq![cond, then] + opt_seq(els),
            Kind::Loop { block } => seq![block],
            Kind::Match { scrutinee, arms, source: _ } => seq![scrutinee] + arms@,
            Kind::Closure { params, body, by_move: _ } => params@ + seq![body],
            Kind::BlockExpr { block } => seq![block],
            Kind::Field { base, name: _ } => seq![base],
            Kind::Index { base, index } => seq![base, index],
            Kind::Path { plain: _, segments: _, res: _ } => seq![],
            Kind::AddrOf { mutable: _, raw: _, operand } => seq![operand],
            Kind::Ret { value } => opt_seq(value),
            Kind::Become { value } => seq![value],
            Kind::Break { value } => opt_seq(value),
            Kind::Yield { value } => seq![value],
            Kind::Struct { fields, base } => fields@ + opt_seq(base),
            Kind::ConstBlock { body } => seq![body],
            Kind::OtherExpr { parts } => parts@,
            Kind::Binding { name: _, id: _, sub } => opt_seq(sub),
            Kind::Wild => seq![],
            Kind::TuplePat { parts } => parts@,
            Kind::TupleStructPat { parts } => parts@,
            Kind::PeelPat { inner } => seq![inner],
            Kind::OrPat { parts } => parts@,
            Kind::OtherPat { parts } => parts@,
            Kind::Block { stmts, tail } => stmts@ + opt_seq(tail),
            Kind::Semi { expr } => seq![expr],
            Kind::ExprStmt { expr } => seq![expr],
            Kind::LetDecl { local } => seq![local],
            Kind::ItemStmt { item } => seq![item],
            Kind::LetStmt { pat, ty, init, els } => opt_seq(init) + seq![pat] + opt_seq(els)
                + opt_seq(ty),
            Kind::Arm { pat, guard, body } => seq![pat] + opt_seq(guard) + seq![body],
            Kind::Param { pat } => seq![pat],
            Kind::FieldInit { name: _, value } => seq![value],
            Kind::Item { item: _, params, body } => params@ + opt_seq(body),
            Kind::ImplItem { inherent: _, params, body } => params@ + opt_seq(body),
            Kind::TraitItem { params, body } => params@ + opt_seq(body),
            Kind::ForeignItem => seq![],
            Kind::Crate => seq![],
            Kind::RefTy { inner } => seq![inner],
            Kind::PathTy { res: _ } => seq![],
            Kind::Other { parts } => parts@,
        }
    }

    /// Every node that this one is made of comes before `n`.
    pub open spec fn below(self, n: int) -> bool {
        match self {
            Kind::Array { elements } => all_below(elements@, n),
            Kind::Tup { elements } => all_below(elements@, n),
            Kind::Repeat { element } => element < n,
            Kind::Call { func, args } => func < n && all_below(args@, n),
            Kind::MethodCall { name: _, receiver, args } => receiver < n && all_below(args@, n),
            Kind::Binary { op: _, lhs, rhs } => lhs < n && rhs < n,
            Kind::Unary { op: _, operand } => operand < n,
            Kind::Assign { lhs, rhs } => lhs < n && rhs < n,
            Kind::AssignOp { op: _, lhs, rhs } => lhs < n && rhs < n,
            Kind::Lit { lit: _ } => true,
            Kind::Cast { operand } => operand < n,
            Kind::DropTemps { inner } => inner < n,
            Kind::Let { pat, init } => pat < n && init < n,
            Kind::If { cond, then, els } => cond < n && then < n && opt_below(els, n),
            Kind::Loop { block } => block < n,
            Kind::Match { scrutinee, arms, source: _ } => scrutinee < n && all_below(arms@, n),
            Kind::Closure { params, body, by_move: _ } => body < n && all_below(params@, n),
            Kind::BlockExpr { block } => block < n,
            Kind::Field { base, name: _ } => base < n,
            Kind::Index { base, index } => base < n && index < n,
            Kind::Path { plain: _, segments: _, res: _ } => true,
            Kind::AddrOf { mutable: _, raw: _, operand } => operand < n,
            Kind::Ret { value } => opt_below(value, n),
            Kind::Become { value } => value < n,
            Kind::Break { value } => opt_below(value, n),
            Kind::Yield { value } => value < n,
            Kind::Struct { fields, base } => all_below(fields@, n) && opt_below(base, n),
            Kind::ConstBlock { body } => body < n,
            Kind::OtherExpr { parts } => all_below(parts@, n),
            Kind::Binding { name: _, id: _, sub } => opt_below(sub, n),
            Kind::Wild => true,
            Kind::TuplePat { parts } => all_below(parts@, n),
            Kind::TupleStructPat { parts } => all_below(parts@, n),
            Kind::PeelPat { inner } => inner < n,
            Kind::OrPat { parts } => all_below(parts@, n),
            Kind::OtherPat { parts } => all_below(parts@, n),
            Kind::Block { stmts, tail } => all_below(stmts@, n) && opt_below(tail, n),
            Kind::Semi { expr } => expr < n,
            Kind::ExprStmt { expr } => expr < n,
            Kind::LetDecl { local } => local < n,
            Kind::ItemStmt { item } => item < n,
            Kind::LetStmt { pat, ty, init, els } => pat < n && opt_below(ty, n) && opt_below(
                init,
                n,
            ) && opt_below(els, n),
            Kind::Arm { pat, guard, body } => pat < n && body < n && opt_below(guard, n),
            Kind::Param { pat } => pat < n,
            Kind::FieldInit { name: _, value } => value < n,
            Kind::Item { item: _, params, body } => all_below(params@, n) && opt_below(body, n),
            Kind::ImplItem { inherent: _, params, body } => all_below(params@, n) && opt_below(
                body,
                n,
            ),
            Kind::TraitItem { params, body } => all_below(params@, n) && opt_below(body, n),
            Kind::ForeignItem => true,
            Kind::Crate => true,
            Kind::RefTy { inner } => inner < n,
            Kind::PathTy { res: _ } => true,
            Kind::Other { parts } => all_below(parts@, n),
        }
    }

    pub proof fn lemma_children_below(self, n: int)
        ensures
            self.below(n) == all_below(self.children(), n),
    {
        let kids = self.children();
        if all_below(kids, n) && !self.below(n) {
            match self {
                Kind::Repeat { element: one } | Kind::Unary { operand: one, .. } | Kind::Cast {
                    operand: one,
                } | Kind::DropTemps { inner: one } | Kind::Loop { block: one } | Kind::BlockExpr {
                    block: one,
                } | Kind::Field { base: one, .. } | Kind::AddrOf { operand: one, .. }
                | Kind::Become { value: one } | Kind::Yield { value: one } | Kind::ConstBlock {
                    body: one,
                } | Kind::PeelPat { inner: one } | Kind::Semi { expr: one } | Kind::ExprStmt {
                    expr: one,
                } | Kind::LetDecl { local: one } | Kind::ItemStmt { item: one } | Kind::Param {
                    pat: one,
                } | Kind::FieldInit { value: one, .. } | Kind::RefTy { inner: one } => {
                    assert(kids[0] == one);
                },
                Kind::Ret { value: one } | Kind::Break { value: one } | Kind::Binding {
                    sub: one,
                    ..
                } => {
                    assert(kids[0] == one->0);
                },
                Kind::Call { args: list, .. } | Kind::MethodCall { args: list, .. }
                | Kind::Match { arms: list, .. } => {
                    assert(kids[0] < n);
                    assert forall|i: int| 0 <= i < list@.len() implies #[trigger] list@[i] < n by {
                        assert(kids[i + 1] == list@[i]);
                    }
                },
                Kind::Struct { fields: list, base: one } | Kind::Block { stmts: list, tail: one }
                | Kind::Item { params: list, body: one, .. } | Kind::ImplItem {
                    params: list,
                    body: one,
                    ..
                } | Kind::TraitItem { params: list, body: one } => {
                    assert forall|i: int| 0 <= i < list@.len() implies #[trigger] list@[i] < n by {
                        assert(kids[i] == list@[i]);
                    }
                    if one is Some {
                        assert(kids[list@.len() as int] == one->0);
                    }
                },
                Kind::Closure { params: list, body, .. } => {
                    assert forall|i: int| 0 <= i < list@.len() implies #[trigger] list@[i] < n by {
                        assert(kids[i] == list@[i]);
                    }
                    assert(kids[list@.len() as int] == body);
                },
                Kind::If { els, .. } => {
                    assert(kids[0] < n && kids[1] < n);
                    if els is Some {
                        assert(kids[2] == els->0);
                    }
                },
                Kind::LetStmt { pat, ty, init, els } => {
                    let a = opt_seq(init).len() as int;
                    let b = opt_seq(els).len() as int;
                    assert(kids[a] == pat);
                    if init is Some {
                        assert(kids[0] == init->0);
                    }
                    if els is Some {
                        assert(kids[a + 1] == els->0);
                    }
                    if ty is Some {
                        assert(kids[a + 1 + b] == ty->0);
                    }
                },
                Kind::Arm { guard, body, .. } => {
                    let a = opt_seq(guard).len() as int;
                    assert(kids[0] < n);
                    if guard is Some {
                        assert(kids[1] == guard->0);
                    }
                    assert(kids[1 + a] == body);
                },
                _ => {
                    assert(kids[0] < n && kids[1] < n);
                },
            }
        }
    }

    /// An expression.
    pub open spec fn is_expr(self) -> bool {
        match self {
            Kind::Array { .. } | Kind::Tup { .. } | Kind::Repeat { .. } | Kind::Call { .. }
            | Kind::MethodCall { .. } | Kind::Binary { .. } | Kind::Unary { .. }
            | Kind::Assign { .. } | Kind::AssignOp { .. } | Kind::Lit { .. } | Kind::Cast { .. }
            | Kind::DropTemps { .. } | Kind::Let { .. } | Kind::If { .. } | Kind::Loop { .. }
            | Kind::Match { .. } | Kind::Closure { .. } | Kind::BlockExpr { .. }
            | Kind::Field { .. } | Kind::Index { .. } | Kind::Path { .. } | Kind::AddrOf { .. }
            | Kind::Ret { .. } | Kind::Become { .. } | Kind::Break { .. } | Kind::Yield { .. }
            | Kind::Struct { .. } | Kind::ConstBlock { .. } | Kind::OtherExpr { .. } => true,
            _ => false,
        }
    }

    /// A body of its own: that of a closure or a const block.
    pub open spec fn is_body(self) -> bool {
        self is Closure || self is ConstBlock
    }

    /// Whether this is an expression.
    pub fn expr(&self) -> (r: bool)
        ensures
            r == self.is_expr(),
    {
        match self {
            Kind::Array { .. } | Kind::Tup { .. } | Kind::Repeat { .. } | Kind::Call { .. }
            | Kind::MethodCall { .. } | Kind::Binary { .. } | Kind::Unary { .. }
            | Kind::Assign { .. } | Kind::AssignOp { .. } | Kind::Lit { .. } | Kind::Cast { .. }
            | Kind::DropTemps { .. } | Kind::Let { .. } | Kind::If { .. } | Kind::Loop { .. }
            | Kind::Match { .. } | Kind::Closure { .. } | Kind::BlockExpr { .. }
            | Kind::Field { .. } | Kind::Index { .. } | Kind::Path { .. } | Kind::AddrOf { .. }
            | Kind::Ret { .. } | Kind::Become { .. } | Kind::Break { .. } | Kind::Yield { .. }
            | Kind::Struct { .. } | Kind::ConstBlock { .. } | Kind::OtherExpr { .. } => true,
            _ => false,
        }
    }

    /// The nodes that this one is made of, in visiting order.
    pub fn parts(&self) -> (r: Vec<usize>)
        ensures
            r@ == self.children(),
    {
        let mut out: Vec<usize> = Vec::new();
        match self {
            Kind::Array { elements: list } | Kind::Tup { elements: list } | Kind::OtherExpr {
                parts: list,
            } | Kind::TuplePat { parts: list } | Kind::TupleStructPat { parts: list }
            | Kind::OrPat { parts: list } | Kind::OtherPat { parts: list } | Kind::Other {
                parts: list,
            } => {
                push_all(&mut out, list);
            },
            Kind::Repeat { element: one } | Kind::Unary { operand: one, .. } | Kind::Cast {
                operand: one,
            } | Kind::DropTemps { inner: one } | Kind::Loop { block: one } | Kind::BlockExpr {
                block: one,
            } | Kind::Field { base: one, .. } | Kind::AddrOf { operand: one, .. }
            | Kind::Become { value: one } | Kind::Yield { value: one } | Kind::ConstBlock {
                body: one,
            } | Kind::PeelPat { inner: one } | Kind::Semi { expr: one } | Kind::ExprStmt {
                expr: one,
            } | Kind::LetDecl { local: one } | Kind::ItemStmt { item: one } | Kind::Param {
                pat: one,
            } | Kind::FieldInit { value: one, .. } | Kind::RefTy { inner: one } => {
                out.push(*one);
            },
            Kind::Call { func: one, args: list } | Kind::MethodCall {
                receiver: one,
                args: list,
                ..
            } | Kind::Match { scrutinee: one, arms: list, .. } => {
                out.push(*one);
                push_all(&mut out, list);
            },
            Kind::Binary { lhs: first, rhs: second, .. } | Kind::Assign {
                rhs: first,
                lhs: second,
            } | Kind::AssignOp { rhs: first, lhs: second, .. } | Kind::Let {
                init: first,
                pat: second,
            } | Kind::Index { base: first, index: second } => {
                out.push(*first);
                out.push(*second);
            },
            Kind::If { cond, then, els } => {
                out.push(*cond);
                out.push(*then);
                push_opt(&mut out, *els);
            },
            Kind::Closure { params, body, .. } => {
                push_all(&mut out, params);
                out.push(*body);
            },
            Kind::Ret { value: one } | Kind::Break { value: one } | Kind::Binding {
                sub: one,
                ..
            } => {
                push_opt(&mut out, *one);
            },
            Kind::Struct { fields: list, base: one } | Kind::Block { stmts: list, tail: one }
            | Kind::Item { params: list, body: one, .. } | Kind::ImplItem {
                params: list,
                body: one,
                ..
            } | Kind::TraitItem { params: list, body: one } => {
                push_all(&mut out, list);
                push_opt(&mut out, *one);
            },
            Kind::LetStmt { pat, ty, init, els } => {
                push_opt(&mut out, *init);
                out.push(*pat);
                push_opt(&mut out, *els);
                push_opt(&mut out, *ty);
            },
            Kind::Arm { pat, guard, body } => {
                out.push(*pat);
                push_opt(&mut out, *guard);
                out.push(*body);
            },
            Kind::Lit { .. } | Kind::Path { .. } | Kind::Wild | Kind::ForeignItem | Kind::Crate
            | Kind::PathTy { .. } => {
            },
        }
        out
    }
}

fn push_all(out: &mut Vec<usize>, list: &Vec<usize>)
    ensures
        final(out)@ == old(out)@ + list@,
{
    let mut i: usize = 0;
    let ghost before = out@;
    while i < list.len()
        invariant
            i <= list.len(),
            out@ == before + list@.take(i as int),
        decreases list.len() - i,
    {
        out.push(list[i]);
        i = i + 1;
    }
}

fn push_opt(out: &mut Vec<usize>, id: Option<usize>)
    ensures
        final(out)@ == old(out)@ + opt_seq(id),
{
    match id {
        Some(id) => {
            out.push(id);
        },
        None => {},
    }
}

impl Ty {
    /// The types that this one is made of come before `n`.
    pub open spec fn below(self, n: int) -> bool {
        match self.kind {
            TyKind::Ref { inner, .. } => inner < n,
            TyKind::Adt { def: _, args } => all_below(args@, n),
            TyKind::Tuple { parts } => all_below(parts@, n),
            TyKind::Closure { inputs } => all_below(inputs@, n),
            TyKind::Slice { element } => element < n,
            TyKind::Alias { self_ty, def: _, projection: _, args } => self_ty < n && all_below(
                args@,
                n,
            ),
            TyKind::Other { parts } => all_below(parts@, n),
            _ => true,
        }
    }
}

/// What a walk over the tree looks for.
#[derive(Clone, Copy, Debug, PartialEq, Eq, Structural)]
pub enum Want {
    Exprs,
    Bindings,
}

impl Want {
    pub open spec fn matches(self, kind: Kind) -> bool {
        match self {
            Want::Exprs => kind.is_expr(),
            Want::Bindings => kind is Binding,
        }
    }

    fn wants(self, kind: &Kind) -> (r: bool)
        ensures
            r == self.matches(*kind),
    {
        match self {
            Want::Exprs => kind.expr(),
            Want::Bindings => match kind {
                Kind::Binding { .. } => true,
                _ => false,
            },
        }
    }
}

impl Hir {
    /// There is a node `n`.
    pub open spec fn has(self, n: usize) -> bool {
        n < self.nodes@.len()
    }

    /// The node `n`.
    pub open spec fn node(self, n: usize) -> Node {
        self.nodes@[n as int]
    }

    pub open spec fn kind(self, n: usize) -> Kind {
        self.node(n).kind
    }

    /// A node's own facts are in range.
    pub open spec fn node_wf(self, n: usize) -> bool {
        let node = self.node(n);
        &&& node.kind.below(n as int)
        &&& node.parent matches Some(p) ==> n < p < self.nodes@.len()
        &&& node.ty < self.types@.len()
        &&& node.adjusted < self.types@.len()
        &&& opt_below(node.get_receiver, n as int)
        &&& node.snippet matches Some(source) ==> encode_utf8(source@).len() <= i32::MAX
        &&& node.for_loop matches Some(head) ==> head.arg < n && head.body < n
        &&& vec_macro_below(node.vec_macro, n as int)
        &&& captured_below(node.captured@, self.types@.len() as int)
        &&& opt_below(node.row_builder, n as int)
        &&& all_below(node.handler_args@, n as int)
        &&& path_args_below(node.path_args, n as int)
        &&& opt_below(node.qself, n as int)
        &&& node.call_sig matches Some(sig) ==> sig.output < self.types@.len()
        &&& all_bounds_below(node.bounds, self.types@.len() as int)
        &&& captures_below(node.captures@, self.types@.len() as int)
        &&& opt_below(node.inherent, self.types@.len() as int)
        &&& node.format matches Some(f) ==> f < self.formats@.len() && forall|i: int|
            0 <= i < self.formats@[f as int].args@.len() ==> opt_below(
                #[trigger] self.formats@[f as int].args@[i].expr,
                n as int,
            )
    }

    /// The tree is in order: what a node is made of comes before it, its parent
    /// after it, and all its facts are in range.
    pub open spec fn wf(self) -> bool {
        &&& self.nodes@.len() < usize::MAX
        &&& forall|n: usize| self.has(n) ==> #[trigger] self.node_wf(n)
        &&& forall|t: int| 0 <= t < self.types@.len() ==> (#[trigger] self.types@[t]).below(t)
    }

    /// What the node is made of has it as its parent.
    pub open spec fn owns_children(self, n: usize) -> bool {
        forall|k: int|
            0 <= k < self.kind(n).children().len() ==> self.node(
                #[trigger] self.kind(n).children()[k],
            ).parent == Some(n)
    }

    /// The node is one of those that its parent is made of.
    pub open spec fn held_by_parent(self, n: usize) -> bool {
        match self.node(n).parent {
            Some(p) => self.has(p) && self.kind(p).children().contains(n),
            None => true,
        }
    }

    /// Parents and children agree throughout the tree.
    pub open spec fn linked(self) -> bool {
        &&& forall|n: usize| self.has(n) ==> #[trigger] self.owns_children(n)
        &&& forall|n: usize| self.has(n) ==> #[trigger] self.held_by_parent(n)
    }

    /// The nodes below `n` that a walk visits: it stays out of items declared in
    /// a block, and one that is not `nested` out of the bodies of closures and
    /// const blocks.
    pub open spec fn kids(self, n: usize, nested: bool) -> Seq<usize> {
        if self.kind(n) is ItemStmt || (!nested && self.kind(n).is_body()) {
            seq![]
        } else {
            self.kind(n).children()
        }
    }

    /// The wanted nodes in the subtrees of `list` that come before `bound`, each
    /// before those below it.
    pub open spec fn walk(
        self,
        list: Seq<usize>,
        bound: int,
        nested: bool,
        want: Want,
    ) -> Seq<usize>
        decreases bound, list.len(),
    {
        if list.len() == 0 {
            seq![]
        } else {
            let n = list.last();
            self.walk(list.drop_last(), bound, nested, want) + (if 0 <= n < bound {
                (if want.matches(self.kind(n)) {
                    seq![n]
                } else {
                    seq![]
                }) + self.walk(self.kids(n, nested), n as int, nested, want)
            } else {
                seq![]
            })
        }
    }

    /// The expressions in the subtree of `n`, each before those below it.
    pub open spec fn exprs(self, n: usize, nested: bool) -> Seq<usize> {
        self.walk(seq![n], n + 1, nested, Want::Exprs)
    }

    fn walk_into(
        &self,
        list: &Vec<usize>,
        bound: usize,
        nested: bool,
        want: Want,
        out: &mut Vec<usize>,
    )
        requires
            self.wf(),
            bound <= self.nodes.len(),
            all_below(list@, bound as int),
        ensures
            final(out)@ == old(out)@ + self.walk(list@, bound as int, nested, want),
        decreases bound,
    {
        let ghost before = out@;
        let mut i: usize = 0;
        proof {
            assert(list@.take(0) =~= seq![]);
        }
        while i < list.len()
            invariant
                i <= list.len(),
                self.wf(),
                bound <= self.nodes.len(),
                all_below(list@, bound as int),
                out@ == before + self.walk(list@.take(i as int), bound as int, nested, want),
            decreases list.len() - i,
        {
            let n: usize = list[i];
            let ghost prior = out@;
            let ghost head = if want.matches(self.kind(n)) {
                seq![n]
            } else {
                seq![]
            };
            proof {
                assert(self.node_wf(n));
                self.kind(n).lemma_children_below(n as int);
                assert(list@.take(i + 1).drop_last() =~= list@.take(i as int));
                assert(list@.take(i + 1).last() == n);
            }
            if want.wants(&self.nodes[n].kind) {
                out.push(n);
            }
            let skip = match &self.nodes[n].kind {
                Kind::ItemStmt { .. } => true,
                Kind::Closure { .. } | Kind::ConstBlock { .. } => !nested,
                _ => false,
            };
            assert(out@ =~= prior + head);
            if !skip {
                let kids: Vec<usize> = self.nodes[n].kind.parts();
                self.walk_into(&kids, n, nested, want, out);
            }
            proof {
                assert(out@ =~= prior + (head + self.walk(self.kids(n, nested), n as int, nested, want)));
                assert(out@ =~= before + self.walk(list@.take(i + 1), bound as int, nested, want));
            }
            i = i + 1;
        }
        proof {
            assert(list@.take(list.len() as int) =~= list@);
        }
    }

    /// The expressions in the subtree of `n`, each before those below it; those
    /// inside closures and const blocks only if `nested`.
    pub fn exprs_in(&self, n: usize, nested: bool) -> (r: Vec<usize>)
        requires
            self.wf(),
            self.has(n),
        ensures
            r@ == self.exprs(n, nested),
            all_below(r@, n + 1),
    {
        let mut list: Vec<usize> = Vec::new();
        list.push(n);
        let mut out: Vec<usize> = Vec::new();
        self.walk_into(&list, n + 1, nested, Want::Exprs, &mut out);
        proof {
            assert(list@ =~= seq![n]);
            self.lemma_walk_below(list@, n + 1, nested, Want::Exprs);
        }
        out
    }

    /// The bindings that a pattern makes, in order.
    pub open spec fn bindings(self, pat: usize) -> Seq<usize> {
        self.walk(seq![pat], pat + 1, true, Want::Bindings)
    }

    /// The bindings that a pattern makes, in order.
    pub fn bindings_in(&self, pat: usize) -> (r: Vec<usize>)
        requires
            self.wf(),
            self.has(pat),
        ensures
            r@ == self.bindings(pat),
            all_below(r@, pat + 1),
    {
        let mut list: Vec<usize> = Vec::new();
        list.push(pat);
        let mut out: Vec<usize> = Vec::new();
        self.walk_into(&list, pat + 1, true, Want::Bindings, &mut out);
        proof {
            assert(list@ =~= seq![pat]);
            self.lemma_walk_below(list@, pat + 1, true, Want::Bindings);
        }
        out
    }

    pub proof fn lemma_walk_below(self, list: Seq<usize>, bound: int, nested: bool, want: Want)
        ensures
            all_below(self.walk(list, bound, nested, want), bound),
        decreases bound, list.len(),
    {
        if list.len() > 0 {
            let n = list.last();
            self.lemma_walk_below(list.drop_last(), bound, nested, want);
            if 0 <= n < bound {
                self.lemma_walk_below(self.kids(n, nested), n as int, nested, want);
            }
        }
    }
}

/// A span keeps what it is asked to keep: from a place inside it to its end, from
/// its start to such a place, nothing at either end, or everything up to and
/// through another.
pub proof fn spans_keep_their_ends(span: Span, other: Span, at: u32)
    requires
        span.lo <= at <= span.hi,
    ensures
        span.from_lo(at).lo == at && span.from_lo(at).hi == span.hi,
        span.up_to_hi(at).lo == span.lo && span.up_to_hi(at).hi == at,
        span.start().lo == span.lo && span.start().hi == span.lo,
        span.end().lo == span.hi && span.end().hi == span.hi,
        span.through(other).lo <= span.lo && span.through(other).lo <= other.lo,
        span.through(other).hi >= span.hi && span.through(other).hi >= other.hi,
        span.through(other).lo == span.lo || span.through(other).lo == other.lo,
        span.through(other).hi == span.hi || span.through(other).hi == other.hi,
        span.from_lo(at).expanded() == span.expanded(),
        span.through(other).expanded() == (span.expanded() || other.expanded()),
{
}

proof fn lemma_walk_one(hir: Hir, list: Seq<usize>, bound: int, want: Want, k: int, e: usize)
    requires
        0 <= k < list.len(),
        list[k] < bound,
        hir.walk(seq![list[k]], list[k] + 1, true, want).contains(e),
    ensures
        hir.walk(list, bound, true, want).contains(e),
    decreases list.len(),
{
    let all = hir.walk(list, bound, true, want);
    let rest = hir.walk(list.drop_last(), bound, true, want);
    if k < list.len() - 1 {
        assert(list.drop_last()[k] == list[k]);
        lemma_walk_one(hir, list.drop_last(), bound, want, k, e);
        let i = choose|i: int| 0 <= i < rest.len() && rest[i] == e;
        assert(all[i] == e);
    } else {
        let one = hir.walk(seq![list[k]], list[k] + 1, true, want);
        reveal_with_fuel(Hir::walk, 2);
        assert(seq![list[k]].drop_last() =~= seq![]);
        let i = choose|i: int| 0 <= i < one.len() && one[i] == e;
        assert(all =~= rest + one);
        assert(all[rest.len() + i] == e);
    }
}

/// An expression is found among its own expressions, and so is everything that is
/// found among those of a part of it; nested items are the one exception.
pub proof fn parts_are_walked(hir: Hir, n: usize, part: usize, e: usize)
    ensures
        hir.kind(n).is_expr() ==> hir.exprs(n, true).contains(n),
        hir.kind(n).children().contains(part) && part < n && !(hir.kind(n) is ItemStmt)
            && hir.exprs(part, true).contains(e) ==> hir.exprs(n, true).contains(e),
{
    let all = hir.exprs(n, true);
    let parts = hir.kind(n).children();
    let head: Seq<usize> = if hir.kind(n).is_expr() {
        seq![n]
    } else {
        seq![]
    };
    let below = hir.walk(hir.kids(n, true), n as int, true, Want::Exprs);
    reveal_with_fuel(Hir::walk, 2);
    assert(seq![n].drop_last() =~= seq![]);
    assert(all =~= head + below);
    if hir.kind(n).is_expr() {
        assert(all[0] == n);
    }
    if parts.contains(part) && part < n && !(hir.kind(n) is ItemStmt) && hir.exprs(
        part,
        true,
    ).contains(e) {
        let k = choose|k: int| 0 <= k < parts.len() && parts[k] == part;
        lemma_walk_one(hir, parts, n as int, Want::Exprs, k, e);
        let i = choose|i: int| 0 <= i < below.len() && below[i] == e;
        assert(all[head.len() + i] == e);
    }
}

/// A walk that does not go into nested bodies finds a closure and nothing in it.
pub proof fn closures_are_left_closed(hir: Hir, n: usize)
    requires
        hir.kind(n) is Closure,
    ensures
        hir.exprs(n, false) == seq![n],
{
    reveal_with_fuel(Hir::walk, 3);
    assert(seq![n].drop_last() =~= seq![]);
    assert(hir.exprs(n, false) =~= seq![n]);
}

} // verus!
