//! `manual_identifiable`: a hand-written `impl Identifiable` or a
//! `use_id`/`self_id` wrapper on a local struct where `#[derive(Identifiable)]`
//! plus a `#[id]` field marker say the same thing.

use crate::derive_list;
use crate::diagnostics;
use crate::diagnostics::{Applicability, Diagnostic, DiagnosticView, RemarkView};
use crate::hir;
use crate::hir::{Hir, Kind, Namespace, Span, Trait, TyKind};
use crate::imports;
use crate::imports::{Bare, Module, Query};
use crate::known::Known;
use crate::lint::Lint;
use crate::source_map::SourceMap;
use crate::text;
use vstd::prelude::*;

verus! {

/// A place in the source, with the indentation of its line.
#[derive(Debug)]
pub struct Spot {
    pub span: Span,
    pub indent: Option<String>,
}

/// A field of a struct. Tuple fields are named `0`, `1` and so on.
#[derive(Debug)]
pub struct Field {
    pub name: String,
    pub positional: bool,
    pub at: Spot,
    /// The places of its attributes, where they are known.
    pub attrs: Vec<Spot>,
    pub ty: usize,
}

/// A struct that the crate defines.
#[derive(Debug)]
pub struct StructItem {
    pub node: usize,
    pub def: usize,
    pub name: String,
    /// The item, which starts at `struct` or its visibility, after its
    /// attributes.
    pub at: Spot,
    pub fields: Vec<Field>,
    /// The module it stands in.
    pub module: Module,
}

/// An item of a trait impl: the trait's item that it implements, and what it is.
#[derive(Debug)]
pub struct ImplItem {
    pub trait_item: Option<usize>,
    pub kind: ImplItemKind,
}

#[derive(Debug)]
pub enum ImplItemKind {
    /// A function, by its parameters and the value of its body.
    Fn { params: Vec<usize>, body: usize },
    /// A type, by what it stands for.
    Type { ty: usize },
    Const,
}

/// An `impl` item.
#[derive(Debug)]
pub struct ImplBlock {
    pub span: Span,
    /// A derive wrote it.
    pub derived: bool,
    /// The trait it implements.
    pub of_trait: Option<usize>,
    pub self_ty: usize,
    /// For each generic argument of the self type, the place of the parameter
    /// that it is.
    pub args: Vec<Option<usize>>,
    pub items: Vec<ImplItem>,
    /// Where its file ends.
    pub file_end: u32,
}

/// What the lint knows about the crate.
#[derive(Debug)]
pub struct Crate {
    pub source_map: SourceMap,
    pub structs: Vec<StructItem>,
    /// The `waterui_macros::Identifiable` derive.
    pub derive: Option<usize>,
    /// The `Identifiable` trait, and its items by name.
    pub identifiable: Option<usize>,
    pub trait_items: Vec<(String, usize)>,
}

/// What the closure of a `use_id` selects.
#[derive(Debug)]
pub enum Mark {
    /// `|v| v.f` or `|v| v.0`: the `#[id]` field by name.
    Field(String),
    /// `self_id()` or `use_id(|v| v.clone())`: the struct's only field.
    Whole,
}

/// What a mark says.
pub ghost enum MarkView {
    Field(Seq<char>),
    Whole,
}

impl View for Mark {
    type V = MarkView;

    open spec fn view(&self) -> MarkView {
        match *self {
            Mark::Field(name) => MarkView::Field(name@),
            Mark::Whole => MarkView::Whole,
        }
    }
}

impl Crate {
    /// The crate's facts are in range.
    pub open spec fn wf(self, hir: Hir) -> bool {
        forall|i: int| 0 <= i < self.structs@.len() ==> hir.has((#[trigger] self.structs@[i]).node)
    }

    /// The first struct from `i` on that defines `def`.
    pub open spec fn struct_from(self, def: usize, i: int) -> Option<int>
        decreases self.structs@.len() - i,
    {
        if i < 0 || i >= self.structs@.len() {
            None
        } else if self.structs@[i].def == def {
            Some(i)
        } else {
            self.struct_from(def, i + 1)
        }
    }

    /// The struct of this crate that a type is, where a person wrote it.
    pub open spec fn struct_of(self, hir: Hir, t: usize) -> Option<int> {
        match hir.ty(t).kind {
            TyKind::Adt { def, args: _ } => match self.struct_from(def, 0) {
                Some(i) => if self.structs@[i].at.span.expanded() {
                    None
                } else {
                    Some(i)
                },
                None => None,
            },
            _ => None,
        }
    }

    /// The definition of a local struct type; nothing for enums, unions, foreign
    /// types and macro-generated items.
    pub fn local_struct_item(&self, hir: &Hir, t: usize) -> (r: Option<usize>)
        requires
            t < hir.types.len(),
        ensures
            match r {
                Some(i) => self.struct_of(*hir, t) == Some(i as int) && i < self.structs.len(),
                None => self.struct_of(*hir, t) is None,
            },
    {
        let def: usize = match &hir.types[t].kind {
            TyKind::Adt { def, .. } => *def,
            _ => {
                return None;
            },
        };
        match self.find_struct(def) {
            Some(i) => if self.structs[i].at.span.from_expansion() {
                None
            } else {
                Some(i)
            },
            None => None,
        }
    }

    fn find_struct(&self, def: usize) -> (r: Option<usize>)
        ensures
            match r {
                Some(i) => self.struct_from(def, 0) == Some(i as int) && i < self.structs.len(),
                None => self.struct_from(def, 0) is None,
            },
    {
        let mut i: usize = 0;
        while i < self.structs.len()
            invariant
                i <= self.structs.len(),
                self.struct_from(def, 0) == self.struct_from(def, i as int),
            decreases self.structs.len() - i,
        {
            if self.structs[i].def == def {
                return Some(i);
            }
            i = i + 1;
        }
        None
    }

    /// The last item of the trait among the first `n` that has the name.
    pub open spec fn trait_item_upto(self, name: Seq<char>, n: int) -> Option<usize>
        decreases n,
    {
        if n <= 0 {
            None
        } else if self.trait_items@[n - 1].0@ == name {
            Some(self.trait_items@[n - 1].1)
        } else {
            self.trait_item_upto(name, n - 1)
        }
    }

    /// The item of the trait with the name.
    pub open spec fn trait_item(self, name: Seq<char>) -> Option<usize> {
        self.trait_item_upto(name, self.trait_items@.len() as int)
    }

    fn find_trait_item(&self, name: &str) -> (r: Option<usize>)
        ensures
            r == self.trait_item(name@),
    {
        let mut n: usize = self.trait_items.len();
        while n > 0
            invariant
                n <= self.trait_items.len(),
                self.trait_item(name@) == self.trait_item_upto(name@, n as int),
            decreases n,
        {
            if text::str_eq(self.trait_items[n - 1].0.as_str(), name) {
                return Some(self.trait_items[n - 1].1);
            }
            n = n - 1;
        }
        None
    }

    /// The trait items of `Identifiable`, `(fn id, type Id)`, for matching the
    /// impl's items.
    pub fn identifiable_items(&self) -> (r: (Option<usize>, Option<usize>))
        ensures
            r.0 == self.trait_item("id"@),
            r.1 == self.trait_item("Id"@),
    {
        (self.find_trait_item("id"), self.find_trait_item("Id"))
    }
}

impl StructItem {
    /// The first field from `i` on that has the name.
    pub open spec fn field_from(self, name: Seq<char>, i: int) -> Option<int>
        decreases self.fields@.len() - i,
    {
        if i < 0 || i >= self.fields@.len() {
            None
        } else if self.fields@[i].name@ == name {
            Some(i)
        } else {
            self.field_from(name, i + 1)
        }
    }

    /// The field with the name; `0`, `1` and so on name tuple fields.
    pub fn field_by_name(&self, name: &str) -> (r: Option<usize>)
        ensures
            match r {
                Some(i) => self.field_from(name@, 0) == Some(i as int) && i < self.fields.len(),
                None => self.field_from(name@, 0) is None,
            },
    {
        let mut i: usize = 0;
        while i < self.fields.len()
            invariant
                i <= self.fields.len(),
                self.field_from(name@, 0) == self.field_from(name@, i as int),
            decreases self.fields.len() - i,
        {
            if text::str_eq(self.fields[i].name.as_str(), name) {
                return Some(i);
            }
            i = i + 1;
        }
        None
    }

    /// The field that a mark selects.
    pub open spec fn marked(self, mark: MarkView) -> Option<int> {
        match mark {
            MarkView::Field(name) => self.field_from(name, 0),
            MarkView::Whole => if self.fields@.len() == 1 {
                Some(0)
            } else {
                None
            },
        }
    }

    /// The only field of a single-field struct: `self_id` and `v.clone()` can
    /// only become `#[id]` there.
    pub fn single_field(&self) -> (r: Option<usize>)
        ensures
            match r {
                Some(i) => self.marked(MarkView::Whole) == Some(i as int) && i < self.fields.len(),
                None => self.marked(MarkView::Whole) is None,
            },
    {
        if self.fields.len() == 1 {
            Some(0)
        } else {
            None
        }
    }
}

/// The id of what a pattern binds.
pub open spec fn bound_id(hir: Hir, pat: usize) -> Option<usize> {
    match hir.kind(pat) {
        Kind::Binding { name: _, id, sub: _ } => Some(id),
        _ => None,
    }
}

/// The id of what a `|v|` or `self` pattern binds.
pub fn binding_hir(hir: &Hir, pat: usize) -> (r: Option<usize>)
    requires
        hir.has(pat),
    ensures
        r == bound_id(*hir, pat),
{
    match &hir.nodes[pat].kind {
        Kind::Binding { id, .. } => Some(*id),
        _ => None,
    }
}

/// The expression without a trailing `.clone()`.
pub open spec fn unclone(hir: Hir, n: usize) -> usize {
    match hir.kind(n) {
        Kind::MethodCall { name: _, receiver, args } => if args@.len() == 0 && hir.resolves_item(
            n,
            Known::Clone,
        ) {
            receiver
        } else {
            n
        },
        _ => n,
    }
}

/// The expression with a trailing `.clone()` peeled: `self.f.clone()` is
/// `self.f`, `v.clone()` is `v`.
pub fn peel_clone(hir: &Hir, n: usize) -> (r: usize)
    requires
        hir.wf(),
        hir.has(n),
    ensures
        r == unclone(*hir, n),
        r <= n,
{
    proof {
        assert(hir.node_wf(n));
    }
    match &hir.nodes[n].kind {
        Kind::MethodCall { receiver, args, .. } => if args.len() == 0 && hir.resolves_of(
            n,
            Known::Clone,
        ) {
            *receiver
        } else {
            n
        },
        _ => n,
    }
}

/// The field of `local` that the expression reads.
pub open spec fn read_of(hir: Hir, n: usize, local: usize) -> Option<Seq<char>> {
    match hir.kind(n) {
        Kind::Field { base, name } => if hir.local(base) == Some(local) {
            Some(name.name@)
        } else {
            None
        },
        _ => None,
    }
}

/// The name of the field of `local` that the expression reads: `v.f`, `v.0`.
pub fn field_read(hir: &Hir, n: usize, local: usize) -> (r: Option<String>)
    requires
        hir.wf(),
        hir.has(n),
    ensures
        text::text_opt(r) == read_of(*hir, n, local),
{
    proof {
        assert(hir.node_wf(n));
    }
    match &hir.nodes[n].kind {
        Kind::Field { base, name } => match hir.res_local(*base) {
            Some(id) => if id == local {
                Some(name.name.clone())
            } else {
                None
            },
            None => None,
        },
        _ => None,
    }
}

/// The pattern of a parameter.
pub open spec fn pat_of(hir: Hir, param: usize) -> Option<usize> {
    match hir.kind(param) {
        Kind::Param { pat } => Some(pat),
        _ => None,
    }
}

/// The pattern is `self`.
pub open spec fn binds_self(hir: Hir, pat: usize) -> bool {
    match hir.kind(pat) {
        Kind::Binding { name, id: _, sub: _ } => name.name@ == "self"@,
        _ => false,
    }
}

/// The field that a method on `self` with this body returns.
pub open spec fn returned_field(hir: Hir, params: Seq<usize>, body: usize) -> Option<Seq<char>> {
    if params.len() == 0 {
        None
    } else {
        match pat_of(hir, params[0]) {
            Some(pat) => match bound_id(hir, pat) {
                Some(id) => if binds_self(hir, pat) {
                    read_of(hir, unclone(hir, hir.evaluated(body)), id)
                } else {
                    None
                },
                None => None,
            },
            None => None,
        }
    }
}

/// The field `fn id(&self)` returns: `self.f`, `self.f.clone()`, `self.0`,
/// `self.0.clone()`; nothing for a computed body.
pub fn id_field(hir: &Hir, params: &Vec<usize>, body: usize) -> (r: Option<String>)
    requires
        hir.wf(),
        hir.has(body),
        hir::all_below(params@, hir.nodes@.len() as int),
    ensures
        text::text_opt(r) == returned_field(*hir, params@, body),
{
    if params.len() == 0 {
        return None;
    }
    let param: usize = params[0];
    proof {
        assert(hir.node_wf(param));
    }
    let pat: usize = match &hir.nodes[param].kind {
        Kind::Param { pat } => *pat,
        _ => {
            return None;
        },
    };
    match &hir.nodes[pat].kind {
        Kind::Binding { name, id, .. } => if text::str_eq(name.name.as_str(), "self") {
            field_read(hir, peel_clone(hir, hir.body_expr(body)), *id)
        } else {
            None
        },
        _ => None,
    }
}

/// What a `use_id` closure selects.
pub open spec fn mark_of(hir: Hir, func: usize) -> Option<MarkView> {
    match hir.kind(hir.undropped(func)) {
        Kind::Closure { params, body, by_move: _ } => if params@.len() == 1 {
            match pat_of(hir, params@[0]) {
                Some(pat) => match bound_id(hir, pat) {
                    Some(id) => {
                        let value = unclone(hir, hir.evaluated(body));
                        if hir.local(value) == Some(id) {
                            Some(MarkView::Whole)
                        } else {
                            match read_of(hir, value, id) {
                                Some(name) => Some(MarkView::Field(name)),
                                None => None,
                            }
                        }
                    },
                    None => None,
                },
                None => None,
            }
        } else {
            None
        },
        _ => None,
    }
}

/// What an optional mark says.
pub open spec fn mark_opt(mark: Option<Mark>) -> Option<MarkView> {
    match mark {
        Some(mark) => Some(mark@),
        None => None,
    }
}

/// The `#[id]` target for a `use_id` closure: `|v| v.f`, `|v| v.f.clone()`,
/// `|v| v.0` mark that field; `|v| v.clone()` marks the whole value. Nothing for
/// a closure that computes.
pub fn closure_mark(hir: &Hir, func: usize) -> (r: Option<Mark>)
    requires
        hir.wf(),
        hir.has(func),
    ensures
        mark_opt(r) == mark_of(*hir, func),
{
    let func: usize = hir.peel_drop_temps(func);
    proof {
        assert(hir.node_wf(func));
    }
    let (params, body) = match &hir.nodes[func].kind {
        Kind::Closure { params, body, .. } => (params, *body),
        _ => {
            return None;
        },
    };
    if params.len() != 1 {
        return None;
    }
    let param: usize = params[0];
    proof {
        assert(hir.node_wf(param));
    }
    let pat: usize = match &hir.nodes[param].kind {
        Kind::Param { pat } => *pat,
        _ => {
            return None;
        },
    };
    let id: usize = match binding_hir(hir, pat) {
        Some(id) => id,
        None => {
            return None;
        },
    };
    let value: usize = peel_clone(hir, hir.body_expr(body));
    if let Some(local) = hir.res_local(value) {
        if local == id {
            return Some(Mark::Whole);
        }
    }
    match field_read(hir, value, id) {
        Some(name) => Some(Mark::Field(name)),
        None => None,
    }
}

/// The arguments are the owner's parameters in order.
pub open spec fn in_order(args: Seq<Option<usize>>) -> bool {
    forall|i: int| 0 <= i < args.len() ==> (#[trigger] args[i]) == Some(i as usize)
}

/// Whether the arguments are the owner's parameters in order: the impl covers
/// every instance of the struct, exactly what the derive emits. A partial
/// instantiation (`impl<T> Identifiable for TreeNode<T, u64>`) is left alone.
pub fn identity_args(args: &Vec<Option<usize>>) -> (r: bool)
    ensures
        r == in_order(args@),
{
    let mut i: usize = 0;
    while i < args.len()
        invariant
            i <= args.len(),
            forall|k: int| 0 <= k < i ==> (#[trigger] args@[k]) == Some(k as usize),
        decreases args.len() - i,
    {
        let own: bool = match args[i] {
            Some(param) => param == i,
            None => false,
        };
        if !own {
            assert(args@[i as int] != Some(i));
            return false;
        }
        i = i + 1;
    }
    true
}

/// How the derive is spelled at a struct.
pub open spec fn derive_name(hir: Hir, krate: Crate, item: StructItem) -> Seq<char> {
    if imports::bare_meaning(
        hir,
        item.module,
        item.node,
        item.at.span.lo,
        "Identifiable"@,
        Namespace::Macro,
        krate.derive,
    ) is Same {
        "Identifiable"@
    } else {
        "waterui::Identifiable"@
    }
}

/// How the derive is spelled at `item`: bare `Identifiable` when that already
/// resolves to the `waterui_macros` derive there, else `waterui::Identifiable`.
pub fn derive_path(hir: &Hir, krate: &Crate, item: &StructItem) -> (r: &'static str)
    requires
        hir.wf(),
        hir.has(item.node),
    ensures
        r@ == derive_name(*hir, *krate, *item),
{
    let query: Query = Query {
        pos: item.at.span.lo,
        name: "Identifiable",
        ns: Namespace::Macro,
        target: krate.derive,
    };
    match imports::bare_status(hir, &item.module, item.node, &query) {
        Bare::Same => "Identifiable",
        _ => "waterui::Identifiable",
    }
}

/// The indentation, empty where it is unknown.
pub open spec fn indent_text(indent: Option<String>) -> Seq<char> {
    match indent {
        Some(indent) => indent@,
        None => seq![],
    }
}

fn indent_of(indent: &Option<String>) -> (r: String)
    ensures
        r@ == indent_text(*indent),
{
    match indent {
        Some(indent) => indent.clone(),
        None => String::new(),
    }
}

/// Where the derive goes, and what goes there.
pub open spec fn derive_edit(hir: Hir, krate: Crate, item: StructItem) -> (Span, Seq<char>) {
    let path = derive_name(hir, krate, item);
    match derive_list::extension_at(krate.source_map, item.at.span.lo, path) {
        Some(part) => part,
        None => (
            item.at.span.start(),
            "#[derive("@ + path + ")]\n"@ + indent_text(item.at.indent),
        ),
    }
}

/// `(insertion point, text)` for the derive: `, <path>` before the `)` of an
/// existing source `#[derive(..)]`, else a `#[derive(<path>)]` line before the
/// item.
pub fn derive_part(hir: &Hir, krate: &Crate, item: &StructItem) -> (r: (Span, String))
    requires
        hir.wf(),
        hir.has(item.node),
    ensures
        (r.0, r.1@) == derive_edit(*hir, *krate, *item),
{
    let path: &'static str = derive_path(hir, krate, item);
    match derive_list::extend_derive_part(&krate.source_map, item.at.span.lo, path) {
        Some(part) => part,
        None => {
            let indent: String = indent_of(&item.at.indent);
            (
                item.at.span.shrink_to_lo(),
                text::cat4("#[derive(", path, ")]\n", indent.as_str()),
            )
        },
    }
}

/// The first of the earliest places among the first `n` attributes that a person
/// wrote.
pub open spec fn earliest_attr(attrs: Seq<Spot>, n: int) -> Option<int>
    decreases n,
{
    if n <= 0 {
        None
    } else {
        let before = earliest_attr(attrs, n - 1);
        if attrs[n - 1].span.expanded() {
            before
        } else {
            match before {
                Some(i) => if attrs[n - 1].span.lo < attrs[i].span.lo {
                    Some(n - 1)
                } else {
                    before
                },
                None => Some(n - 1),
            }
        }
    }
}

/// The place that a field starts at, with its attributes.
pub open spec fn field_spot(field: Field) -> Spot {
    match earliest_attr(field.attrs@, field.attrs@.len() as int) {
        Some(i) => field.attrs@[i],
        None => field.at,
    }
}

/// Where `#[id]` goes, and what goes there.
pub open spec fn id_edit(field: Field) -> (Span, Seq<char>) {
    let spot = field_spot(field);
    (
        spot.span.start(),
        if field.positional {
            "#[id] "@
        } else {
            "#[id]\n"@ + indent_text(spot.indent)
        },
    )
}

fn find_spot(field: &Field) -> (r: &Spot)
    ensures
        *r == field_spot(*field),
{
    let mut best: Option<usize> = None;
    let mut n: usize = 0;
    while n < field.attrs.len()
        invariant
            n <= field.attrs.len(),
            match best {
                Some(i) => earliest_attr(field.attrs@, n as int) == Some(i as int) && i < n,
                None => earliest_attr(field.attrs@, n as int) is None,
            },
        decreases field.attrs.len() - n,
    {
        if !field.attrs[n].span.from_expansion() {
            match best {
                Some(i) => {
                    if field.attrs[n].span.lo < field.attrs[i].span.lo {
                        best = Some(n);
                    }
                },
                None => {
                    best = Some(n);
                },
            }
        }
        n = n + 1;
    }
    match best {
        Some(i) => &field.attrs[i],
        None => &field.at,
    }
}

/// `(insertion point, text)` for `#[id]`: before the field's first attribute or
/// at the field itself; inline for tuple fields, on a line of its own for named
/// ones.
pub fn id_part(field: &Field) -> (r: (Span, String))
    ensures
        (r.0, r.1@) == id_edit(*field),
{
    let spot: &Spot = find_spot(field);
    let point: Span = spot.span.shrink_to_lo();
    if field.positional {
        (point, "#[id] ".to_owned())
    } else {
        let indent: String = indent_of(&spot.indent);
        (point, text::cat("#[id]\n", indent.as_str()))
    }
}

/// The lines of an item and the newline behind them.
pub open spec fn deleted(map: SourceMap, span: Span, file_end: u32) -> Span {
    let lines = map.whole_lines(span);
    lines.up_to_hi(
        if lines.hi < file_end {
            (lines.hi + 1) as u32
        } else {
            file_end
        },
    )
}

/// An item's span from its line's own indentation to the end of its last line
/// plus one trailing newline: the span whose deletion removes the item cleanly.
pub fn delete_span(map: &SourceMap, span: Span, file_end: u32) -> (r: Span)
    ensures
        r == deleted(*map, span, file_end),
{
    let lines: Span = map.extend_to_lines(span);
    if lines.hi < file_end {
        lines.with_hi(lines.hi + 1)
    } else {
        lines.with_hi(file_end)
    }
}

/// All places are in one file.
pub open spec fn one_file(map: SourceMap, spans: Seq<Span>) -> bool {
    forall|i: int|
        0 <= i < spans.len() ==> map.file_at((#[trigger] spans[i]).lo) == map.file_at(spans[0].lo)
}

fn same_lookup(map: &SourceMap, a: u32, b: u32) -> (r: bool)
    ensures
        r == (map.file_at(a) == map.file_at(b)),
{
    match (map.lookup_file(a), map.lookup_file(b)) {
        (Some(i), Some(j)) => i == j,
        (None, None) => true,
        _ => false,
    }
}

/// Whether all `spans` live in one source file: suggestions are applied per
/// file, so a cross-file fix is demoted to help text.
pub fn same_file(map: &SourceMap, spans: &Vec<Span>) -> (r: bool)
    ensures
        r == one_file(*map, spans@),
{
    if spans.len() == 0 {
        return true;
    }
    let mut i: usize = 0;
    while i < spans.len()
        invariant
            0 < spans.len(),
            i <= spans.len(),
            forall|k: int|
                0 <= k < i ==> map.file_at((#[trigger] spans@[k]).lo) == map.file_at(spans@[0].lo),
        decreases spans.len() - i,
    {
        if !same_lookup(map, spans[i].lo, spans[0].lo) {
            assert(map.file_at(spans@[i as int].lo) != map.file_at(spans@[0].lo));
            return false;
        }
        i = i + 1;
    }
    true
}

/// The last item among the first `n` that implements `fn id`, by parameters and
/// body.
pub open spec fn id_fn(items: Seq<ImplItem>, fn_id: usize, n: int) -> Option<(Vec<usize>, usize)>
    decreases n,
{
    if n <= 0 {
        None
    } else {
        match items[n - 1].kind {
            ImplItemKind::Fn { params, body } => if items[n - 1].trait_item == Some(fn_id) {
                Some((params, body))
            } else {
                id_fn(items, fn_id, n - 1)
            },
            _ => id_fn(items, fn_id, n - 1),
        }
    }
}

/// The last item among the first `n` that gives `type Id`.
pub open spec fn id_type(items: Seq<ImplItem>, ty_id: usize, n: int) -> Option<usize>
    decreases n,
{
    if n <= 0 {
        None
    } else {
        match items[n - 1].kind {
            ImplItemKind::Type { ty } => if items[n - 1].trait_item == Some(ty_id) {
                Some(ty)
            } else {
                id_type(items, ty_id, n - 1)
            },
            _ => id_type(items, ty_id, n - 1),
        }
    }
}

impl ImplBlock {
    /// The impl's facts are in range.
    pub open spec fn wf(self, hir: Hir) -> bool {
        &&& self.self_ty < hir.types@.len()
        &&& forall|i: int|
            0 <= i < self.items@.len() ==> ((#[trigger] self.items@[i]).kind matches
                ImplItemKind::Fn { params, body } ==> hir.has(body) && hir::all_below(
                params@,
                hir.nodes@.len() as int,
            ))
    }

    /// The field that `fn id` returns, where `type Id` is its type.
    pub open spec fn id_of(self, hir: Hir, krate: Crate) -> Option<(int, int)> {
        let n = self.items@.len() as int;
        match (
            krate.struct_of(hir, self.self_ty),
            krate.trait_item("id"@),
            krate.trait_item("Id"@),
        ) {
            (Some(s), Some(fn_id), Some(ty_id)) => match (
                id_fn(self.items@, fn_id, n),
                id_type(self.items@, ty_id, n),
            ) {
                (Some((params, body)), Some(ty)) => match returned_field(hir, params@, body) {
                    Some(name) => match krate.structs@[s].field_from(name, 0) {
                        Some(f) => if krate.structs@[s].fields@[f].at.span.expanded()
                            || krate.structs@[s].fields@[f].ty != ty {
                            None
                        } else {
                            Some((s, f))
                        },
                        None => None,
                    },
                    None => None,
                },
                _ => None,
            },
            _ => None,
        }
    }

    fn find_id_fn(&self, fn_id: usize) -> (r: Option<(&Vec<usize>, usize)>)
        ensures
            match r {
                Some((params, body)) => {
                    &&& id_fn(self.items@, fn_id, self.items@.len() as int) == Some(
                        (*params, body),
                    )
                    &&& exists|i: int|
                        0 <= i < self.items@.len() && (#[trigger] self.items@[i]).kind
                            == (ImplItemKind::Fn { params: *params, body })
                },
                None => id_fn(self.items@, fn_id, self.items@.len() as int) is None,
            },
    {
        let mut n: usize = self.items.len();
        while n > 0
            invariant
                n <= self.items.len(),
                id_fn(self.items@, fn_id, self.items@.len() as int) == id_fn(
                    self.items@,
                    fn_id,
                    n as int,
                ),
            decreases n,
        {
            let own: bool = match self.items[n - 1].trait_item {
                Some(id) => id == fn_id,
                None => false,
            };
            if let ImplItemKind::Fn { params, body } = &self.items[n - 1].kind {
                if own {
                    assert(self.items@[n - 1].kind == (ImplItemKind::Fn {
                        params: *params,
                        body: *body,
                    }));
                    return Some((params, *body));
                }
            }
            n = n - 1;
        }
        None
    }

    fn find_id_type(&self, ty_id: usize) -> (r: Option<usize>)
        ensures
            r == id_type(self.items@, ty_id, self.items@.len() as int),
    {
        let mut n: usize = self.items.len();
        while n > 0
            invariant
                n <= self.items.len(),
                id_type(self.items@, ty_id, self.items@.len() as int) == id_type(
                    self.items@,
                    ty_id,
                    n as int,
                ),
            decreases n,
        {
            let own: bool = match self.items[n - 1].trait_item {
                Some(id) => id == ty_id,
                None => false,
            };
            if let ImplItemKind::Type { ty } = &self.items[n - 1].kind {
                if own {
                    return Some(*ty);
                }
            }
            n = n - 1;
        }
        None
    }

    fn find_id(&self, hir: &Hir, krate: &Crate) -> (r: Option<(usize, usize)>)
        requires
            hir.wf(),
            self.wf(*hir),
        ensures
            match r {
                Some((s, f)) => self.id_of(*hir, *krate) == Some((s as int, f as int)) && s
                    < krate.structs.len() && f < krate.structs@[s as int].fields.len(),
                None => self.id_of(*hir, *krate) is None,
            },
    {
        let s: usize = match krate.local_struct_item(hir, self.self_ty) {
            Some(s) => s,
            None => {
                return None;
            },
        };
        let (fn_id, ty_id) = match krate.identifiable_items() {
            (Some(fn_id), Some(ty_id)) => (fn_id, ty_id),
            _ => {
                return None;
            },
        };
        let (params, body) = match self.find_id_fn(fn_id) {
            Some(found) => found,
            None => {
                return None;
            },
        };
        let ty: usize = match self.find_id_type(ty_id) {
            Some(ty) => ty,
            None => {
                return None;
            },
        };
        let name: String = match id_field(hir, params, body) {
            Some(name) => name,
            None => {
                return None;
            },
        };
        let f: usize = match krate.structs[s].field_by_name(name.as_str()) {
            Some(f) => f,
            None => {
                return None;
            },
        };
        if krate.structs[s].fields[f].at.span.from_expansion() || krate.structs[s].fields[f].ty
            != ty {
            return None;
        }
        Some((s, f))
    }
}

/// What is said of an impl.
pub open spec fn impl_finding(hir: Hir, krate: Crate, block: ImplBlock) -> Option<DiagnosticView> {
    match (block.of_trait, block.id_of(hir, krate)) {
        (Some(of_trait), Some((s, f))) => {
            let item = krate.structs@[s];
            let field = item.fields@[f];
            let parts = seq![
                derive_edit(hir, krate, item),
                id_edit(field),
                (deleted(krate.source_map, block.span, block.file_end), seq![]),
            ];
            if block.span.expanded() || block.derived || !hir.is_def(of_trait, Known::Identifiable)
                || !in_order(block.args@) {
                None
            } else {
                Some(
                    DiagnosticView::bare(
                        Lint::ManualIdentifiable,
                        block.span,
                        "`Identifiable` can be derived — mark `"@ + field.name@
                            + "` with `#[id]` and drop the impl"@,
                    ).with(
                        if one_file(krate.source_map, seq![parts[0].0, parts[1].0, parts[2].0]) {
                            RemarkView::Multipart {
                                label: "derive `Identifiable` and mark the field with `#[id]`"@,
                                parts,
                                applicability: Applicability::MaybeIncorrect,
                            }
                        } else {
                            RemarkView::Help(
                                "mark `"@ + field.name@ + "` with `#[id]` on `"@ + item.name@
                                    + "` and delete this impl"@,
                            )
                        },
                    ),
                )
            }
        },
        _ => None,
    }
}

/// Flags `impl Identifiable for T` where `T` is a local struct and `id` returns
/// a field verbatim.
pub fn check_item(hir: &Hir, krate: &Crate, block: &ImplBlock) -> (r: Option<Diagnostic>)
    requires
        hir.wf(),
        krate.wf(*hir),
        block.wf(*hir),
    ensures
        diagnostics::found(r) == impl_finding(*hir, *krate, *block),
{
    if block.span.from_expansion() || block.derived {
        return None;
    }
    match block.of_trait {
        Some(of_trait) => {
            if !hir.def_path_eq(of_trait, Known::Identifiable) {
                return None;
            }
        },
        None => {
            return None;
        },
    }
    if !identity_args(&block.args) {
        return None;
    }
    let (s, f) = match block.find_id(hir, krate) {
        Some(found) => found,
        None => {
            return None;
        },
    };
    let item: &StructItem = &krate.structs[s];
    let field: &Field = &item.fields[f];
    let mut finding: Diagnostic = Diagnostic::bare(
        Lint::ManualIdentifiable,
        block.span,
        text::cat3(
            "`Identifiable` can be derived — mark `",
            field.name.as_str(),
            "` with `#[id]` and drop the impl",
        ).as_str(),
    );
    let derive: (Span, String) = derive_part(hir, krate, item);
    let id: (Span, String) = id_part(field);
    let lines: Span = delete_span(&krate.source_map, block.span, block.file_end);
    let mut spans: Vec<Span> = Vec::new();
    spans.push(derive.0);
    spans.push(id.0);
    spans.push(lines);
    proof {
        assert(spans@ =~= seq![derive.0, id.0, lines]);
    }
    if same_file(&krate.source_map, &spans) {
        let mut parts: Vec<(Span, String)> = Vec::new();
        parts.push(derive);
        parts.push(id);
        parts.push((lines, String::new()));
        proof {
            assert(diagnostics::part_views(parts@) =~= seq![
                derive_edit(*hir, *krate, *item),
                id_edit(*field),
                (lines, seq![]),
            ]);
        }
        finding.multipart_suggestion(
            "derive `Identifiable` and mark the field with `#[id]`",
            parts,
            Applicability::MaybeIncorrect,
        );
    } else {
        finding.help(
            text::cat5(
                "mark `",
                field.name.as_str(),
                "` with `#[id]` on `",
                item.name.as_str(),
                "` and delete this impl",
            ),
        );
    }
    Some(finding)
}

/// What the call marks as the identity of its receiver.
pub open spec fn call_mark(hir: Hir, n: usize) -> Option<MarkView> {
    if hir.resolves_item(n, Known::UseId) {
        if hir.operands(n).len() == 2 {
            mark_of(hir, hir.operands(n)[1])
        } else {
            None
        }
    } else if hir.resolves_item(n, Known::SelfId) {
        Some(MarkView::Whole)
    } else {
        None
    }
}

/// The struct that the call wraps, and its identity.
pub open spec fn wrapped_id(hir: Hir, krate: Crate, n: usize) -> Option<(usize, int, int)> {
    match (call_mark(hir, n), hir.first_operand(n)) {
        (Some(mark), Some(receiver)) => match krate.struct_of(hir, hir.node(receiver).ty) {
            Some(s) => match krate.structs@[s].marked(mark) {
                Some(f) => if krate.identifiable is None || hir.expr_ty(receiver).implements(
                    Trait::Identifiable,
                    seq![],
                ) || krate.structs@[s].fields@[f].at.span.expanded() {
                    None
                } else {
                    Some((receiver, s, f))
                },
                None => None,
            },
            None => None,
        },
        _ => None,
    }
}

/// What is said of an expression.
pub open spec fn expr_finding(hir: Hir, krate: Crate, n: usize) -> Option<DiagnosticView> {
    match wrapped_id(hir, krate, n) {
        Some((receiver, s, f)) => {
            let item = krate.structs@[s];
            let field = item.fields@[f];
            let span = hir.node(n).span;
            let derive = derive_edit(hir, krate, item);
            let id = id_edit(field);
            if span.expanded() {
                None
            } else {
                Some(
                    DiagnosticView::bare(
                        Lint::ManualIdentifiable,
                        span,
                        "`"@ + item.name@
                            + "` can derive `Identifiable` — `use_id`/`self_id` wrap foreign types"@,
                    ).with(
                        if one_file(krate.source_map, seq![derive.0, id.0, span])
                            && hir.source(receiver) is Some {
                            RemarkView::Multipart {
                                label: "derive `Identifiable` on `"@ + item.name@
                                    + "` and use the value directly"@,
                                parts: seq![derive, id, (span, hir.source(receiver)->0)],
                                applicability: Applicability::MaybeIncorrect,
                            }
                        } else {
                            RemarkView::Help(
                                "derive `Identifiable` on `"@ + item.name@ + "`, mark `"@
                                    + field.name@
                                    + "` with `#[id]`, and use the receiver directly"@,
                            )
                        },
                    ),
                )
            }
        },
        None => None,
    }
}

fn find_mark(hir: &Hir, n: usize) -> (r: Option<Mark>)
    requires
        hir.wf(),
        hir.has(n),
    ensures
        mark_opt(r) == call_mark(*hir, n),
{
    if hir.resolves_of(n, Known::UseId) {
        let args: Vec<usize> = hir.call_args(n);
        if args.len() == 2 {
            closure_mark(hir, args[1])
        } else {
            None
        }
    } else if hir.resolves_of(n, Known::SelfId) {
        Some(Mark::Whole)
    } else {
        None
    }
}

fn find_wrapped(hir: &Hir, krate: &Crate, n: usize) -> (r: Option<(usize, usize, usize)>)
    requires
        hir.wf(),
        hir.has(n),
        krate.wf(*hir),
    ensures
        match r {
            Some((receiver, s, f)) => wrapped_id(*hir, *krate, n) == Some(
                (receiver, s as int, f as int),
            ) && receiver < n && s < krate.structs.len() && f
                < krate.structs@[s as int].fields.len(),
            None => wrapped_id(*hir, *krate, n) is None,
        },
{
    let mark: Mark = match find_mark(hir, n) {
        Some(mark) => mark,
        None => {
            return None;
        },
    };
    let receiver: usize = match hir.first_arg(n) {
        Some(receiver) => receiver,
        None => {
            return None;
        },
    };
    proof {
        assert(hir.node_wf(receiver));
    }
    let s: usize = match krate.local_struct_item(hir, hir.nodes[receiver].ty) {
        Some(s) => s,
        None => {
            return None;
        },
    };
    if krate.identifiable.is_none() || hir.type_of(receiver).implements_trait(Trait::Identifiable) {
        return None;
    }
    let field: Option<usize> = match &mark {
        Mark::Field(name) => krate.structs[s].field_by_name(name.as_str()),
        Mark::Whole => krate.structs[s].single_field(),
    };
    match field {
        Some(f) => if krate.structs[s].fields[f].at.span.from_expansion() {
            None
        } else {
            Some((receiver, s, f))
        },
        None => None,
    }
}

/// Flags `x.use_id(|v| v.f)` and `x.self_id()` on a local struct. They are the
/// only option for foreign types; on a type that is already `Identifiable` the
/// wrapper is a different concern.
pub fn check_expr(hir: &Hir, krate: &Crate, n: usize) -> (r: Option<Diagnostic>)
    requires
        hir.wf(),
        hir.has(n),
        krate.wf(*hir),
    ensures
        diagnostics::found(r) == expr_finding(*hir, *krate, n),
{
    let span: Span = hir.nodes[n].span;
    if span.from_expansion() {
        return None;
    }
    let (receiver, s, f) = match find_wrapped(hir, krate, n) {
        Some(found) => found,
        None => {
            return None;
        },
    };
    let item: &StructItem = &krate.structs[s];
    let field: &Field = &item.fields[f];
    let mut finding: Diagnostic = Diagnostic::bare(
        Lint::ManualIdentifiable,
        span,
        text::cat3(
            "`",
            item.name.as_str(),
            "` can derive `Identifiable` — `use_id`/`self_id` wrap foreign types",
        ).as_str(),
    );
    let derive: (Span, String) = derive_part(hir, krate, item);
    let id: (Span, String) = id_part(field);
    let mut spans: Vec<Span> = Vec::new();
    spans.push(derive.0);
    spans.push(id.0);
    spans.push(span);
    proof {
        assert(spans@ =~= seq![derive.0, id.0, span]);
    }
    if same_file(&krate.source_map, &spans) {
        if let Some(source) = hir.snippet_opt(receiver) {
            let mut parts: Vec<(Span, String)> = Vec::new();
            parts.push(derive);
            parts.push(id);
            parts.push((span, source));
            proof {
                assert(diagnostics::part_views(parts@) =~= seq![
                    derive_edit(*hir, *krate, *item),
                    id_edit(*field),
                    (span, source@),
                ]);
            }
            finding.multipart_suggestion(
                text::cat3(
                    "derive `Identifiable` on `",
                    item.name.as_str(),
                    "` and use the value directly",
                ).as_str(),
                parts,
                Applicability::MaybeIncorrect,
            );
            return Some(finding);
        }
    }
    finding.help(
        text::cat5(
            "derive `Identifiable` on `",
            item.name.as_str(),
            "`, mark `",
            field.name.as_str(),
            "` with `#[id]`, and use the receiver directly",
        ),
    );
    Some(finding)
}

proof fn lemma_field_from(item: StructItem, name: Seq<char>, i: int)
    requires
        0 <= i,
    ensures
        match item.field_from(name, i) {
            Some(f) => i <= f < item.fields@.len() && item.fields@[f].name@ == name && forall|k: int|
                i <= k < f ==> (#[trigger] item.fields@[k]).name@ != name,
            None => forall|k: int|
                i <= k < item.fields@.len() ==> (#[trigger] item.fields@[k]).name@ != name,
        },
    decreases item.fields@.len() - i,
{
    if i < item.fields@.len() && item.fields@[i].name@ != name {
        lemma_field_from(item, name, i + 1);
    }
}

proof fn lemma_trait_item(krate: Crate, name: Seq<char>, n: int)
    requires
        0 <= n <= krate.trait_items@.len(),
    ensures
        krate.trait_item_upto(name, n) matches Some(def) ==> exists|k: int|
            0 <= k < n && (#[trigger] krate.trait_items@[k]).0@ == name && krate.trait_items@[k].1
                == def,
    decreases n,
{
    if n > 0 {
        lemma_trait_item(krate, name, n - 1);
    }
}

/// The item of the trait with that name is `def`.
pub open spec fn names_trait_item(krate: Crate, name: Seq<char>, def: usize) -> bool {
    exists|k: int|
        0 <= k < krate.trait_items@.len() && (#[trigger] krate.trait_items@[k]).0@ == name
            && krate.trait_items@[k].1 == def
}

/// The function gives back the field of that name of its `self`, or a clone of it.
pub open spec fn gives_field(hir: Hir, params: Seq<usize>, body: usize, name: Seq<char>) -> bool {
    &&& params.len() > 0
    &&& hir.kind(params[0]) matches Kind::Param { pat }
    &&& hir.kind(pat) matches Kind::Binding { name: taken, id, sub: _ }
    &&& taken.name@ == "self"@
    &&& {
        let value = hir.evaluated(body);
        let read = match hir.kind(value) {
            Kind::MethodCall { name: _, receiver, args } => if args@.len() == 0
                && hir.resolves_item(value, Known::Clone) {
                receiver
            } else {
                value
            },
            _ => value,
        };
        hir.kind(read) matches Kind::Field { base, name: field } && hir.local(base) == Some(id)
            && field.name@ == name
    }
}

/// The implementation has a function for the trait's `id` that gives back the
/// field, and a type for the trait's `Id` that is the field's.
pub open spec fn identifies_by(hir: Hir, krate: Crate, items: Seq<ImplItem>, field: Field) -> bool {
    &&& exists|k: int|
        0 <= k < items.len() && ((#[trigger] items[k]).trait_item matches Some(def)
            && names_trait_item(krate, "id"@, def)) && (items[k].kind matches ImplItemKind::Fn {
            params,
            body,
        } && gives_field(hir, params@, body, field.name@))
    &&& exists|k: int|
        0 <= k < items.len() && ((#[trigger] items[k]).trait_item matches Some(def)
            && names_trait_item(krate, "Id"@, def)) && (items[k].kind matches ImplItemKind::Type {
            ty,
        } && ty == field.ty)
}

proof fn lemma_id_fn(items: Seq<ImplItem>, def: usize, n: int)
    requires
        0 <= n <= items.len(),
    ensures
        id_fn(items, def, n) matches Some(found) ==> exists|k: int|
            0 <= k < n && (#[trigger] items[k]).trait_item == Some(def) && items[k].kind
                == (ImplItemKind::Fn { params: found.0, body: found.1 }),
    decreases n,
{
    if n > 0 {
        lemma_id_fn(items, def, n - 1);
        if id_fn(items, def, n) is Some {
            match items[n - 1].kind {
                ImplItemKind::Fn { params, body } => {
                    if items[n - 1].trait_item == Some(def) {
                        assert(items[n - 1].kind == (ImplItemKind::Fn { params, body }));
                    }
                },
                _ => {},
            }
        }
    }
}

proof fn lemma_id_type(items: Seq<ImplItem>, def: usize, n: int)
    requires
        0 <= n <= items.len(),
    ensures
        id_type(items, def, n) matches Some(ty) ==> exists|k: int|
            0 <= k < n && (#[trigger] items[k]).trait_item == Some(def) && items[k].kind
                == (ImplItemKind::Type { ty }),
    decreases n,
{
    if n > 0 {
        lemma_id_type(items, def, n - 1);
        if id_type(items, def, n) is Some {
            match items[n - 1].kind {
                ImplItemKind::Type { ty } => {
                    if items[n - 1].trait_item == Some(def) {
                        assert(items[n - 1].kind == (ImplItemKind::Type { ty }));
                    }
                },
                _ => {},
            }
        }
    }
}

/// The field that is marked with `#[id]` is the one that the implementation
/// identified a value by.
pub proof fn marked_fields_keep_the_identity(hir: Hir, krate: Crate, block: ImplBlock)
    ensures
        block.id_of(hir, krate) matches Some(found) ==> {
            &&& krate.struct_of(hir, block.self_ty) == Some(found.0)
            &&& 0 <= found.1 < krate.structs@[found.0].fields@.len()
            &&& identifies_by(
                hir,
                krate,
                block.items@,
                krate.structs@[found.0].fields@[found.1],
            )
        },
{
    if let Some((s, f)) = block.id_of(hir, krate) {
        let items = block.items@;
        let n = items.len() as int;
        let item = krate.structs@[s];
        let fn_id = krate.trait_item("id"@)->0;
        let ty_id = krate.trait_item("Id"@)->0;
        let (params, body) = id_fn(items, fn_id, n)->0;
        let name = returned_field(hir, params@, body)->0;
        lemma_trait_item(krate, "id"@, krate.trait_items@.len() as int);
        lemma_trait_item(krate, "Id"@, krate.trait_items@.len() as int);
        assert(names_trait_item(krate, "id"@, fn_id));
        assert(names_trait_item(krate, "Id"@, ty_id));
        lemma_id_fn(items, fn_id, n);
        lemma_id_type(items, ty_id, n);
        lemma_field_from(item, name, 0);
        let k = choose|k: int|
            0 <= k < n && (#[trigger] items[k]).trait_item == Some(fn_id) && items[k].kind
                == (ImplItemKind::Fn { params, body });
        assert(gives_field(hir, params@, body, item.fields@[f].name@));
        assert(items[k].trait_item == Some(fn_id));
        let t = choose|t: int|
            0 <= t < n && (#[trigger] items[t]).trait_item == Some(ty_id) && items[t].kind
                == (ImplItemKind::Type { ty: item.fields@[f].ty });
        assert(items[t].trait_item == Some(ty_id));
    }
}

/// The closure gives back the field of that name of what it takes, or a clone.
pub open spec fn picks_field(hir: Hir, func: usize, name: Seq<char>) -> bool {
    &&& hir.kind(hir.undropped(func)) matches Kind::Closure { params, body, by_move: _ }
    &&& params@.len() == 1
    &&& hir.kind(params@[0]) matches Kind::Param { pat }
    &&& hir.kind(pat) matches Kind::Binding { name: _, id, sub: _ }
    &&& {
        let value = hir.evaluated(body);
        let read = match hir.kind(value) {
            Kind::MethodCall { name: _, receiver, args } => if args@.len() == 0
                && hir.resolves_item(value, Known::Clone) {
                receiver
            } else {
                value
            },
            _ => value,
        };
        hir.kind(read) matches Kind::Field { base, name: field } && hir.local(base) == Some(id)
            && field.name@ == name
    }
}

/// Where a value was wrapped with an identity of its own type, the field that is
/// marked is the one that the wrapper's closure picked; a value that was its own
/// identity has that one field alone.
pub proof fn wrapped_values_keep_the_identity(hir: Hir, krate: Crate, n: usize)
    ensures
        wrapped_id(hir, krate, n) matches Some(found) ==> {
            let (receiver, s, f) = found;
            &&& hir.first_operand(n) == Some(receiver)
            &&& krate.struct_of(hir, hir.node(receiver).ty) == Some(s)
            &&& 0 <= f < krate.structs@[s].fields@.len()
            &&& {
                ||| krate.structs@[s].fields@.len() == 1 && f == 0
                ||| hir.resolves_item(n, Known::UseId) && hir.operands(n).len() == 2 && picks_field(
                    hir,
                    hir.operands(n)[1],
                    krate.structs@[s].fields@[f].name@,
                )
            }
        },
{
    if let Some((receiver, s, f)) = wrapped_id(hir, krate, n) {
        match call_mark(hir, n) {
            Some(MarkView::Field(name)) => {
                lemma_field_from(krate.structs@[s], name, 0);
            },
            _ => {},
        }
    }
}

proof fn lemma_earliest_attr(attrs: Seq<Spot>, n: int)
    requires
        0 <= n <= attrs.len(),
    ensures
        match earliest_attr(attrs, n) {
            Some(i) => 0 <= i < n && !attrs[i].span.expanded() && forall|k: int|
                0 <= k < n && !(#[trigger] attrs[k]).span.expanded() ==> attrs[i].span.lo
                    <= attrs[k].span.lo,
            None => forall|k: int| 0 <= k < n ==> (#[trigger] attrs[k]).span.expanded(),
        },
    decreases n,
{
    if n > 0 {
        lemma_earliest_attr(attrs, n - 1);
    }
}

/// `#[id]` goes in front of the field and of every attribute that is written on
/// it.
pub proof fn marks_stand_in_front_of_the_field(field: Field, k: int)
    requires
        0 <= k < field.attrs@.len(),
        !field.attrs@[k].span.expanded(),
    ensures
        id_edit(field).0.lo <= field.attrs@[k].span.lo,
        id_edit(field).0.hi == id_edit(field).0.lo,
        exists|j: int|
            0 <= j < field.attrs@.len() && id_edit(field).0.lo == (
            #[trigger] field.attrs@[j]).span.lo,
{
    lemma_earliest_attr(field.attrs@, field.attrs@.len() as int);
    let i = earliest_attr(field.attrs@, field.attrs@.len() as int)->0;
    assert(id_edit(field).0.lo == field.attrs@[i].span.lo);
}

/// An implementation that gives back a field of its type is reported where it is
/// written by hand for the type's own parameters; the fix marks that field and
/// takes the implementation out, with its lines and the break behind them.
pub proof fn written_implementations_are_dropped(
    hir: Hir,
    krate: Crate,
    block: ImplBlock,
    s: int,
    f: int,
)
    requires
        block.id_of(hir, krate) == Some((s, f)),
    ensures
        impl_finding(hir, krate, block) is Some <==> {
            &&& block.of_trait matches Some(def) && hir.is_def(def, Known::Identifiable)
            &&& !block.span.expanded()
            &&& !block.derived
            &&& forall|i: int|
                0 <= i < block.args@.len() ==> (#[trigger] block.args@[i]) == Some(i as usize)
        },
        impl_finding(hir, krate, block) matches Some(finding) ==> {
            &&& finding.span == block.span
            &&& finding.remarks.len() == 1
            &&& finding.remarks[0] matches RemarkView::Multipart {
                label: _,
                parts,
                applicability: _,
            } ==> {
                let lines = krate.source_map.whole_lines(block.span);
                &&& parts.len() == 3
                &&& parts[1] == id_edit(krate.structs@[s].fields@[f])
                &&& parts[2].1.len() == 0
                &&& lines.lo <= lines.hi && lines.lo <= block.file_end ==> parts[2].0.lo == lines.lo
                    && parts[2].0.hi == (if lines.hi < block.file_end {
                    lines.hi + 1
                } else {
                    block.file_end as int
                })
            }
        },
{
}

} // verus!
