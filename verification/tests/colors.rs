#![allow(dead_code)]

use waterui_lints::color::Defs;
use waterui_lints::diagnostics::{Applicability, Diagnostic, Remark};
use waterui_lints::hir::{
    Bound, Def, DefKind, FloatValue, Hir, Ident, Impl, ItemKind, Kind, Lit, Meaning, Namespace,
    Node, Res, Span, Sugg, Trait, TraitRef, Ty, TyKind, UnOp,
};
use waterui_lints::imports::{use_insertion, ModChild, Module, UseItem};
use waterui_lints::known::Known;
use waterui_lints::lint::Lint;
use waterui_lints::literal_color_components::{
    mask, sat_signed, sat_unsigned, sext, truncate, u8_key, LiteralColorComponents,
};
use waterui_lints::manual_color_erasure::ManualColorErasure;
use waterui_lints::manual_edge_insets;
use waterui_lints::manual_identifiable::{
    self, delete_span, Crate, Field, ImplBlock, ImplItem, ImplItemKind, Spot, StructItem,
};
use waterui_lints::source_map::{SourceFile, SourceMap};

fn module() -> Module {
    Module { children: vec![], ambiguous: vec![], uses: vec![], inject: None, inject_indent: None }
}

fn use_item(lo: u32, text: &str) -> UseItem {
    UseItem {
        span: Span { lo, hi: lo + text.len() as u32, ctxt: 0 },
        text: Some(text.to_string()),
        indent: Some(String::new()),
    }
}

struct Code {
    hir: Hir,
    src: &'static str,
}

impl Code {
    fn new(src: &'static str) -> Code {
        let mut hir = Hir::new();
        hir.add_type(Ty::new(TyKind::Tuple { parts: vec![] })).unwrap();
        Code { hir, src }
    }

    fn at(&self, part: &str) -> Span {
        let lo = self.src.find(part).expect(part);
        Span { lo: lo as u32, hi: (lo + part.len()) as u32, ctxt: 0 }
    }

    fn def(&mut self, item: Known) -> usize {
        self.named(item.text())
    }

    fn named(&mut self, path: &str) -> usize {
        self.hir.add_def(Def { path: path.split("::").map(str::to_string).collect(), ctor_of: None })
    }

    fn ty(&mut self, kind: TyKind) -> usize {
        self.hir.add_type(Ty::new(kind)).unwrap()
    }

    fn adt(&mut self, item: Known, args: Vec<usize>) -> usize {
        let def = self.def(item);
        self.ty(TyKind::Adt { def, args })
    }

    fn signal(&mut self, kind: TyKind, output: usize) -> usize {
        let t = self.ty(kind);
        self.hir.types[t].impls.push(Impl { trait_: Trait::Signal, args: vec![] });
        self.hir.types[t].output = Some(output);
        t
    }

    fn node(&mut self, kind: Kind, part: &str, ty: usize) -> usize {
        let mut node = Node::new(kind, self.at(part), ty);
        node.snippet = Some(part.to_string());
        node.sugg = Some(Sugg { plain: part.to_string(), operand: part.to_string() });
        node.callsite = Some(part.to_string());
        node.indent = Some(String::new());
        self.hir.add_node(node).expect(part)
    }

    fn path(&mut self, part: &str, ty: usize) -> usize {
        let segments = part.split("::").map(|name| self.ident(name)).collect();
        self.node(Kind::Path { plain: true, segments, res: Res::Other }, part, ty)
    }

    fn local(&mut self, part: &str, id: usize, ty: usize) -> usize {
        let segments = vec![self.ident(part)];
        let n = self.node(Kind::Path { plain: true, segments, res: Res::Local(id) }, part, ty);
        self.hir.nodes[n].place = true;
        n
    }

    fn binding(&mut self, part: &str, ty: usize) -> usize {
        let id = self.hir.nodes.len();
        let name = self.ident(part);
        self.node(Kind::Binding { name, id, sub: None }, part, ty)
    }

    fn lit(&mut self, lit: Lit, part: &str, ty: usize) -> usize {
        self.node(Kind::Lit { lit }, part, ty)
    }

    fn ident(&self, name: &str) -> Ident {
        let lo = self.src.find(name).unwrap_or(0);
        let span = Span { lo: lo as u32, hi: (lo + name.len()) as u32, ctxt: 0 };
        Ident { name: name.to_string(), written: name.to_string(), usable: true, span }
    }

    fn call(&mut self, item: Known, func: &str, args: Vec<usize>, part: &str, ty: usize) -> usize {
        let def = self.def(item);
        let segments = func.split("::").map(|name| self.ident(name)).collect();
        let res = Res::Def { def, kind: DefKind::AssocFn };
        let callee = self.node(Kind::Path { plain: true, segments, res }, func, 0);
        let n = self.node(Kind::Call { func: callee, args }, part, ty);
        self.hir.nodes[n].callee = Some(def);
        self.hir.nodes[n].item = Some(def);
        n
    }

    fn method(
        &mut self,
        item: Known,
        name: &str,
        receiver: usize,
        args: Vec<usize>,
        part: &str,
        ty: usize,
    ) -> usize {
        let def = self.def(item);
        let name = self.ident(name);
        let n = self.node(Kind::MethodCall { name, receiver, args }, part, ty);
        self.hir.nodes[n].callee = Some(def);
        self.hir.nodes[n].item = Some(def);
        n
    }

    fn bound(&mut self, n: usize, place: usize, item: Known, arg: Option<usize>) {
        let def = self.def(item);
        let count = match &self.hir.nodes[n].kind {
            Kind::Call { args, .. } => args.len(),
            Kind::MethodCall { args, .. } => args.len() + 1,
            _ => 0,
        };
        let bounds = self.hir.nodes[n].bounds.get_or_insert_with(|| (0..count).map(|_| vec![]).collect());
        bounds[place].push(Bound { def, arg });
    }

    fn block(&mut self, stmts: Vec<usize>, tail: Option<usize>, part: &str) -> usize {
        let block = self.node(Kind::Block { stmts, tail }, part, 0);
        let ty = tail.map_or(0, |tail| self.hir.nodes[tail].ty);
        self.node(Kind::BlockExpr { block }, part, ty)
    }

    fn let_stmt(&mut self, pat: usize, init: usize, part: &str) -> usize {
        let local = self.node(Kind::LetStmt { pat, ty: None, init: Some(init), els: None }, part, 0);
        self.node(Kind::LetDecl { local }, part, 0)
    }

    fn closure(&mut self, pat: usize, body: usize, part: &str) -> usize {
        let written = self.src[self.hir.nodes[pat].span.lo as usize..self.hir.nodes[pat].span.hi as usize].to_string();
        let param = self.node(Kind::Param { pat }, &written, 0);
        self.node(Kind::Closure { params: vec![param], body, by_move: false }, part, 0)
    }

    fn expand(&mut self, n: usize) {
        self.hir.nodes[n].span.ctxt = 7;
    }

    /// The source once the first suggestion is applied.
    fn fixed(&self, found: &Diagnostic) -> String {
        for remark in &found.remarks {
            let mut parts: Vec<(Span, String)> = match remark {
                Remark::Suggestion { span, code, .. } => vec![(*span, code.clone())],
                Remark::Multipart { parts, .. } => {
                    parts.iter().map(|(span, code)| (*span, code.clone())).collect()
                }
                _ => continue,
            };
            parts.sort_by_key(|(span, _)| span.lo);
            let mut out = String::new();
            let mut from = 0;
            for (span, code) in parts {
                out.push_str(&self.src[from..span.lo as usize]);
                out.push_str(&code);
                from = span.hi as usize;
            }
            return out + &self.src[from..];
        }
        panic!("no suggestion in {found:?}");
    }
}

fn applicability(found: &Diagnostic) -> Applicability {
    for remark in &found.remarks {
        match remark {
            Remark::Suggestion { applicability, .. } | Remark::Multipart { applicability, .. } => {
                return *applicability;
            }
            _ => {}
        }
    }
    panic!("no suggestion in {found:?}");
}

fn helps(found: &Diagnostic) -> Vec<&str> {
    found
        .remarks
        .iter()
        .filter_map(|remark| match remark {
            Remark::Help(text) | Remark::Note(text) => Some(text.as_str()),
            _ => None,
        })
        .collect()
}

#[test]
fn keys_are_the_stored_floats() {
    for n in 0..=255u8 {
        let bits = (n as f32 / 255.0).to_bits();
        assert_eq!(u8_key([n, 0, 255]), [bits, 0, 1.0f32.to_bits()]);
    }
}

#[test]
fn distinct_bytes_have_ordered_keys() {
    for n in 0..255u8 {
        assert!(u8_key([n, n, n])[1] < u8_key([n + 1, n + 1, n + 1])[1]);
    }
}

#[test]
fn casts_truncate_and_extend_as_rust_does() {
    assert_eq!(mask(1), 1);
    assert_eq!(mask(128), u128::MAX);
    for v in [0u128, 1, 44, 127, 128, 200, 255, 256, 300, 65535, u128::MAX] {
        assert_eq!(truncate(v, 8), v as u8 as u128);
        assert_eq!(truncate(v, 16), v as u16 as u128);
        assert_eq!(truncate(v, 128), v);
        assert_eq!(sext(v, 8), v as u8 as i8 as i128);
        assert_eq!(sext(v, 64), v as u64 as i64 as i128);
        assert_eq!(sext(v, 128), v as i128);
        assert_eq!(truncate(sext(v, 8) as u128, 8), truncate(v, 8));
    }
}

#[test]
fn float_casts_saturate() {
    let value = |signed: i128, unsigned: u128| FloatValue { signed, unsigned, bits: 0, byte: 0, on_grid: false };
    assert_eq!(sat_signed(value(300, 300), 8), 127);
    assert_eq!(sat_signed(value(-300, 0), 8), 128);
    assert_eq!(sat_signed(value(-1, 0), 8), 255);
    assert_eq!(sat_unsigned(value(300, 300), 8), 255);
    assert_eq!(sat_unsigned(value(-1, 0), 8), 0);
    assert_eq!(sat_unsigned(value(0, 0), 128), 0);
}

fn float(c: &mut Code, part: &str, ty: usize) -> usize {
    let value: f32 = part.parse().unwrap();
    let byte = (value * 255.0).round() as u8;
    let n = c.lit(Lit::Float { digits: part.to_string(), zero: value == 0.0, suffixed: false }, part, ty);
    c.hir.nodes[n].float = Some(FloatValue {
        signed: value as i128,
        unsigned: value as u128,
        bits: value.to_bits(),
        byte,
        on_grid: value == byte as f32 / 255.0,
    });
    n
}

#[test]
fn literal_components_become_a_hex_literal() {
    let mut c = Code::new("Srgb::new(0.2, 1.0, 0.0); Srgb::new_u8(51, 255, 0); Srgb::new(0.25, 1.0, 0.5)");
    let f32_ty = c.ty(TyKind::Float { bits: 32 });
    let u8_ty = c.ty(TyKind::Uint { bits: Some(8) });
    let args = vec![float(&mut c, "0.2", f32_ty), float(&mut c, "1.0", f32_ty), float(&mut c, "0.0", f32_ty)];
    let first = c.call(Known::SrgbNew, "Srgb::new", args, "Srgb::new(0.2, 1.0, 0.0)", 0);
    let byte = |c: &mut Code, value: u128, part: &str| c.lit(Lit::Int { value, suffixed: false }, part, u8_ty);
    let args = vec![byte(&mut c, 51, "51"), byte(&mut c, 255, "255"), byte(&mut c, 0, "0")];
    let second = c.call(Known::SrgbNewU8, "Srgb::new_u8", args, "Srgb::new_u8(51, 255, 0)", 0);
    let args = vec![float(&mut c, "0.25", f32_ty), float(&mut c, "1.0", f32_ty), float(&mut c, "0.5", f32_ty)];
    let third = c.call(Known::SrgbNew, "Srgb::new", args, "Srgb::new(0.25, 1.0, 0.5)", 0);
    let mut lint = LiteralColorComponents::default();
    for n in [first, second, third] {
        lint.check_expr(&c.hir, None, n, 64);
    }
    let found = lint.check_crate_post();
    assert_eq!(found.len(), 3);
    assert_eq!(
        found[0].message,
        "color components written as literals; write the color as `Srgb::from_hex(\"#33FF00\")`"
    );
    assert_eq!(applicability(&found[0]), Applicability::MachineApplicable);
    assert!(helps(&found[0])[0].contains("2 times in this crate"));
    assert_eq!(found[1].message, found[0].message);
    assert_eq!(applicability(&found[2]), Applicability::MaybeIncorrect);
    assert_eq!(helps(&found[2]), ["the components round to (64, 255, 128)"]);
    assert!(lint.check_crate_post().is_empty());
}

#[test]
fn casts_are_evaluated_before_the_color_is_read() {
    let mut c = Code::new("Srgb::new_u8(300u16 as u8, -1i8 as u8, 7)");
    let u8_ty = c.ty(TyKind::Uint { bits: Some(8) });
    let u16_ty = c.ty(TyKind::Uint { bits: Some(16) });
    let i8_ty = c.ty(TyKind::Int { bits: Some(8) });
    let big = c.lit(Lit::Int { value: 300, suffixed: true }, "300u16", u16_ty);
    let a = c.node(Kind::Cast { operand: big }, "300u16 as u8", u8_ty);
    let one = c.lit(Lit::Int { value: 1, suffixed: true }, "1i8", i8_ty);
    let minus = c.node(Kind::Unary { op: UnOp::Neg, operand: one }, "-1i8", i8_ty);
    let b = c.node(Kind::Cast { operand: minus }, "-1i8 as u8", u8_ty);
    let seven = c.lit(Lit::Int { value: 7, suffixed: false }, "7", u8_ty);
    let call = c.call(Known::SrgbNewU8, "Srgb::new_u8", vec![a, b, seven], c.src, 0);
    let mut lint = LiteralColorComponents::new();
    lint.check_expr(&c.hir, None, call, 64);
    let found = lint.check_crate_post();
    assert_eq!(found.len(), 1);
    assert!(found[0].message.contains("#2CFF07"));
    assert_eq!(c.fixed(&found[0]), "Srgb::from_hex(\"#2CFF07\")");
}

#[test]
fn computed_components_are_left_alone() {
    let mut c = Code::new("Srgb::new_u8(r, 255, 0)");
    let u8_ty = c.ty(TyKind::Uint { bits: Some(8) });
    let r = c.path("r", u8_ty);
    let g = c.lit(Lit::Int { value: 255, suffixed: false }, "255", u8_ty);
    let b = c.lit(Lit::Int { value: 0, suffixed: false }, "0", u8_ty);
    let call = c.call(Known::SrgbNewU8, "Srgb::new_u8", vec![r, g, b], c.src, 0);
    let mut lint = LiteralColorComponents::new();
    lint.check_expr(&c.hir, None, call, 64);
    assert!(lint.check_crate_post().is_empty());
}

/// `view.background(Color::srgb(1, 2, 3))`, with what the erasure needs.
fn background(c: &mut Code) -> (Defs, usize, usize) {
    let u8_ty = c.ty(TyKind::Uint { bits: Some(8) });
    let srgb = c.named("waterui_graphics::color::srgb::Srgb");
    let p3 = c.named("waterui_graphics::color::p3::P3");
    let color_ty = c.adt(Known::Color, vec![]);
    let srgb_ty = c.ty(TyKind::Adt { def: srgb, args: vec![] });
    let p3_ty = c.ty(TyKind::Adt { def: p3, args: vec![] });
    let args = (1..=3)
        .map(|n| c.lit(Lit::Int { value: n, suffixed: false }, ["1", "2", "3"][n as usize - 1], u8_ty))
        .collect();
    let ctor = c.call(Known::ColorSrgb, "Color::srgb", args, "Color::srgb(1, 2, 3)", color_ty);
    let view = c.path("view", 0);
    let call = c.method(Known::Foreground, "background", view, vec![ctor], "view.background(Color::srgb(1, 2, 3))", 0);
    c.bound(call, 1, Known::IntoBackground, None);
    let bound = c.hir.nodes[call].bounds.as_ref().unwrap()[1][0];
    c.hir.types[srgb_ty].meets.push(TraitRef { def: bound.def, args: vec![] });
    (Defs { srgb, srgb_ty, p3, p3_ty }, ctor, call)
}

#[test]
fn one_color_lint_speaks_of_an_argument() {
    let mut c = Code::new("view.background(Color::srgb(1, 2, 3))");
    let (defs, ctor, call) = background(&mut c);
    let mut module = module();
    module.children.push(ModChild {
        name: "Srgb".to_string(),
        ns: Some(Namespace::Type),
        meaning: Meaning { def: Some(defs.srgb) },
    });
    let item = c.node(
        Kind::Item { item: ItemKind::Fn { name: "f".to_string() }, params: vec![], body: Some(call) },
        "",
        0,
    );
    let _ = item;
    let mut erasure = ManualColorErasure::default();
    let found = erasure.check_expr(&c.hir, &module, Some(defs), call);
    assert_eq!(found.len(), 1);
    assert_eq!(found[0].lint, Lint::ManualColorErasure);
    assert_eq!(c.fixed(&found[0]), "view.background(Srgb::new_u8(1, 2, 3))");
    let mut literal = LiteralColorComponents::new();
    literal.check_expr(&c.hir, Some(defs), ctor, 64);
    assert!(literal.check_crate_post().is_empty());
    c.hir.types[defs.srgb_ty].meets.clear();
    assert!(erasure.check_expr(&c.hir, &module, Some(defs), call).is_empty());
    literal.check_expr(&c.hir, Some(defs), ctor, 64);
    assert_eq!(literal.check_crate_post().len(), 1);
}

#[test]
fn an_initializer_is_reported_once() {
    let mut c = Code::new("let c = Color::srgb_u32(7); f(c); f(c)");
    let srgb = c.named("waterui_graphics::color::srgb::Srgb");
    let color_ty = c.adt(Known::Color, vec![]);
    let srgb_ty = c.ty(TyKind::Adt { def: srgb, args: vec![] });
    let u32_ty = c.ty(TyKind::Uint { bits: Some(32) });
    let seven = c.lit(Lit::Int { value: 7, suffixed: false }, "7", u32_ty);
    let ctor = c.call(Known::ColorSrgbU32, "Color::srgb_u32", vec![seven], "Color::srgb_u32(7)", color_ty);
    let pat = c.binding("c", color_ty);
    let stmt = c.let_stmt(pat, ctor, "let c = Color::srgb_u32(7);");
    let mut calls = vec![];
    let bound = c.def(Known::IntoBackground);
    for _ in 0..2 {
        let arg = c.local("c", pat, color_ty);
        let call = c.call(Known::TextFn, "f", vec![arg], "f(c)", 0);
        c.hir.nodes[call].bounds = Some(vec![vec![Bound { def: bound, arg: None }]]);
        calls.push(call);
    }
    c.hir.types[srgb_ty].meets.push(TraitRef { def: bound, args: vec![] });
    let first = c.node(Kind::Semi { expr: calls[0] }, "f(c);", 0);
    c.block(vec![stmt, first], Some(calls[1]), c.src);
    let defs = Defs { srgb, srgb_ty, p3: srgb, p3_ty: srgb_ty };
    let mut module = module();
    module.uses.push(use_item(0, "use a;"));
    let mut erasure = ManualColorErasure::new();
    assert_eq!(erasure.check_expr(&c.hir, &module, Some(defs), calls[0]).len(), 1);
    assert!(erasure.check_expr(&c.hir, &module, Some(defs), calls[1]).is_empty());
}

#[test]
fn imports_go_where_they_sort() {
    let mut module = module();
    module.uses.push(use_item(0, "use alloc::x;"));
    module.uses.push(use_item(20, "use waterui::z;"));
    let (span, before, after) = use_insertion(&module, "nami::y").unwrap();
    assert_eq!((span.lo, span.hi), (13, 13));
    assert_eq!((before.as_str(), after.as_str()), ("\n", ""));
    let (span, before, after) = use_insertion(&module, "aaa::y").unwrap();
    assert_eq!((span.lo, span.hi), (0, 0));
    assert_eq!((before.as_str(), after.as_str()), ("", "\n"));
    let mut empty = Module { children: vec![], ambiguous: vec![], uses: vec![], inject: None, inject_indent: None };
    assert!(use_insertion(&empty, "a::b").is_none());
    empty.inject = Some(Span { lo: 5, hi: 5, ctxt: 0 });
    assert_eq!(use_insertion(&empty, "a::b").unwrap().0.lo, 5);
}

#[test]
fn uniform_insets_are_passed_directly() {
    let mut c = Code::new("view.padding_with(EdgeInsets::all(8.0))");
    let insets = c.adt(Known::EdgeInsets, vec![]);
    let f32_ty = c.ty(TyKind::Float { bits: 32 });
    let eight = c.lit(Lit::Float { digits: "8.0".to_string(), zero: false, suffixed: false }, "8.0", f32_ty);
    let all = c.call(Known::EdgeInsetsAll, "EdgeInsets::all", vec![eight], "EdgeInsets::all(8.0)", insets);
    let view = c.path("view", 0);
    let call = c.method(Known::PaddingWith, "padding_with", view, vec![all], c.src, 0);
    c.bound(call, 1, Known::IntoTrait, Some(insets));
    let found = manual_edge_insets::check_expr(&c.hir, call);
    assert_eq!(found.len(), 1);
    assert_eq!(
        found[0].message,
        "this parameter takes `impl Into<EdgeInsets>`; pass the insets directly"
    );
    assert_eq!(c.fixed(&found[0]), "view.padding_with(8.0)");
}

#[test]
fn local_structs_derive_their_identity() {
    let src = "#[derive(Debug)]\nstruct Row { name: String }\nrow.self_id()";
    let mut c = Code::new(src);
    let def = c.named("krate::Row");
    let ty = c.ty(TyKind::Adt { def, args: vec![] });
    let node = c.node(
        Kind::Item { item: ItemKind::Named { name: "Row".to_string(), ns: Namespace::Type }, params: vec![], body: None },
        "struct Row { name: String }",
        0,
    );
    let row = c.path("row", ty);
    let call = c.method(Known::SelfId, "self_id", row, vec![], "row.self_id()", 0);
    let derive = c.named("waterui_macros::Identifiable");
    let identifiable = c.def(Known::Identifiable);
    let mut home = module();
    home.children.push(ModChild {
        name: "Identifiable".to_string(),
        ns: Some(Namespace::Macro),
        meaning: Meaning { def: Some(derive) },
    });
    let spot = |part: &str| Spot { span: c.at(part), indent: Some("    ".to_string()) };
    let krate = Crate {
        source_map: SourceMap { files: vec![SourceFile { start_pos: 0, src: Some(src.to_string()) }] },
        structs: vec![StructItem {
            node,
            def,
            name: "Row".to_string(),
            at: spot("struct Row { name: String }"),
            fields: vec![Field {
                name: "name".to_string(),
                positional: false,
                at: spot("name: String"),
                attrs: vec![],
                ty: 0,
            }],
            module: home,
        }],
        derive: Some(derive),
        identifiable: Some(identifiable),
        trait_items: vec![],
    };
    let found = manual_identifiable::check_expr(&c.hir, &krate, call).unwrap();
    assert_eq!(
        found.message,
        "`Row` can derive `Identifiable` — `use_id`/`self_id` wrap foreign types"
    );
    let fixed = c.fixed(&found);
    assert!(fixed.starts_with("#[derive(Debug, "), "{fixed}");
    assert!(fixed.contains("#[id]\n    name: String"), "{fixed}");
    assert!(fixed.ends_with("\nrow"), "{fixed}");
    c.hir.types[ty].impls.push(Impl { trait_: Trait::Identifiable, args: vec![] });
    assert!(manual_identifiable::check_expr(&c.hir, &krate, call).is_none());
}

#[test]
fn hand_written_identities_are_deleted_with_their_lines() {
    let src = "struct Row { id: u64 }\n\n\t  impl Identifiable for Row { self.id } // why\nfn f() {}\n";
    let block = "impl Identifiable for Row { self.id }";
    let mut c = Code::new(src);
    let def = c.named("krate::Row");
    let self_ty = c.ty(TyKind::Adt { def, args: vec![] });
    let int = c.ty(TyKind::Uint { bits: Some(64) });
    let node = c.node(
        Kind::Item { item: ItemKind::Named { name: "Row".to_string(), ns: Namespace::Type }, params: vec![], body: None },
        "struct Row { id: u64 }",
        0,
    );
    let pat = c.binding("self", self_ty);
    let param = c.node(Kind::Param { pat }, "self", 0);
    let base = c.local("self", pat, self_ty);
    let name = c.ident("id");
    let body = c.node(Kind::Field { base, name }, "self.id", int);
    let identifiable = c.def(Known::Identifiable);
    let fn_id = c.named("waterui_core::foundation::id::Identifiable::id");
    let ty_id = c.named("waterui_core::foundation::id::Identifiable::Id");
    let spot = |part: &str| Spot { span: c.at(part), indent: Some(String::new()) };
    let mut krate = Crate {
        source_map: SourceMap { files: vec![SourceFile { start_pos: 0, src: Some(src.to_string()) }] },
        structs: vec![StructItem {
            node,
            def,
            name: "Row".to_string(),
            at: spot("struct Row { id: u64 }"),
            fields: vec![Field {
                name: "id".to_string(),
                positional: false,
                at: spot("id: u64"),
                attrs: vec![],
                ty: int,
            }],
            module: module(),
        }],
        derive: None,
        identifiable: Some(identifiable),
        trait_items: vec![("id".to_string(), fn_id), ("Id".to_string(), ty_id)],
    };
    let mut written = ImplBlock {
        span: c.at(block),
        derived: false,
        of_trait: Some(identifiable),
        self_ty,
        args: vec![],
        items: vec![
            ImplItem { trait_item: Some(ty_id), kind: ImplItemKind::Type { ty: int } },
            ImplItem { trait_item: Some(fn_id), kind: ImplItemKind::Fn { params: vec![param], body } },
        ],
        file_end: src.len() as u32,
    };
    let found = manual_identifiable::check_item(&c.hir, &krate, &written).unwrap();
    assert_eq!(found.message, "`Identifiable` can be derived — mark `id` with `#[id]` and drop the impl");
    assert_eq!(
        c.fixed(&found),
        "#[derive(waterui::Identifiable)]\nstruct Row { #[id]\nid: u64 }\n\nfn f() {}\n"
    );
    // The last line has no newline to take along.
    let end = src.find(" // why").unwrap() as u32;
    krate.source_map.files[0].src = Some(src[..end as usize].to_string());
    written.file_end = end;
    let lines = delete_span(&krate.source_map, written.span, written.file_end);
    assert_eq!((lines.lo, lines.hi), (24, end));
    // Without the text the span is all there is.
    krate.source_map.files[0].src = None;
    let bare = delete_span(&krate.source_map, written.span, written.file_end);
    assert_eq!((bare.lo, bare.hi), (written.span.lo, written.span.hi));
    written.args = vec![None];
    assert!(manual_identifiable::check_item(&c.hir, &krate, &written).is_none());
}
