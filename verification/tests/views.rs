#![allow(dead_code)]

use waterui_lints::anyview_new_in_free_fn;
use waterui_lints::diagnostics::{Applicability, Diagnostic, Remark};
use waterui_lints::empty_label_literal;
use waterui_lints::fixed_children_in_vec;
use waterui_lints::hardcoded_theme_value;
use waterui_lints::hir::{
    Bound, Def, DefKind, Hir, Ident, Impl, ItemKind, Kind, Lit, Node, Res, RetTy, Span, Sugg, Trait,
    Ty, TyKind, VecMacro,
};
use waterui_lints::if_else_view;
use waterui_lints::image_without_label;
use waterui_lints::imports::Module;
use waterui_lints::known::Known;
use waterui_lints::lint::Lint;
use waterui_lints::list_in_scroll;
use waterui_lints::manual_muted_foreground;
use waterui_lints::needless_anyview;

fn module() -> Module {
    Module { children: vec![], ambiguous: vec![], uses: vec![], inject: None, inject_indent: None }
}

struct Code {
    hir: Hir,
    src: &'static str,
}

impl Code {
    fn new(src: &'static str) -> Code {
        let mut hir = Hir::new();
        hir.add_type(Ty::new(TyKind::Tuple { parts: vec![] })).unwrap();
        Code { hir, src }
    }

    fn at(&self, part: &str) -> Span {
        let lo = self.src.find(part).expect(part);
        Span { lo: lo as u32, hi: (lo + part.len()) as u32, ctxt: 0 }
    }

    fn def(&mut self, item: Known) -> usize {
        self.named(item.text())
    }

    fn named(&mut self, path: &str) -> usize {
        self.hir.add_def(Def { path: path.split("::").map(str::to_string).collect(), ctor_of: None })
    }

    fn ty(&mut self, kind: TyKind) -> usize {
        self.hir.add_type(Ty::new(kind)).unwrap()
    }

    fn adt(&mut self, item: Known, args: Vec<usize>) -> usize {
        let def = self.def(item);
        self.ty(TyKind::Adt { def, args })
    }

    fn signal(&mut self, kind: TyKind, output: usize) -> usize {
        let t = self.ty(kind);
        self.hir.types[t].impls.push(Impl { trait_: Trait::Signal, args: vec![] });
        self.hir.types[t].output = Some(output);
        t
    }

    fn node(&mut self, kind: Kind, part: &str, ty: usize) -> usize {
        let mut node = Node::new(kind, self.at(part), ty);
        node.snippet = Some(part.to_string());
        node.sugg = Some(Sugg { plain: part.to_string(), operand: part.to_string() });
        node.callsite = Some(part.to_string());
        node.indent = Some(String::new());
        self.hir.add_node(node).expect(part)
    }

    fn path(&mut self, part: &str, ty: usize) -> usize {
        let segments = part.split("::").map(|name| self.ident(name)).collect();
        self.node(Kind::Path { plain: true, segments, res: Res::Other }, part, ty)
    }

    fn local(&mut self, part: &str, id: usize, ty: usize) -> usize {
        let segments = vec![self.ident(part)];
        let n = self.node(Kind::Path { plain: true, segments, res: Res::Local(id) }, part, ty);
        self.hir.nodes[n].place = true;
        n
    }

    fn binding(&mut self, part: &str, ty: usize) -> usize {
        let id = self.hir.nodes.len();
        let name = self.ident(part);
        self.node(Kind::Binding { name, id, sub: None }, part, ty)
    }

    fn lit(&mut self, lit: Lit, part: &str, ty: usize) -> usize {
        self.node(Kind::Lit { lit }, part, ty)
    }

    fn ident(&self, name: &str) -> Ident {
        let lo = self.src.find(name).unwrap_or(0);
        let span = Span { lo: lo as u32, hi: (lo + name.len()) as u32, ctxt: 0 };
        Ident { name: name.to_string(), written: name.to_string(), usable: true, span }
    }

    fn call(&mut self, item: Known, func: &str, args: Vec<usize>, part: &str, ty: usize) -> usize {
        let def = self.def(item);
        let segments = func.split("::").map(|name| self.ident(name)).collect();
        let res = Res::Def { def, kind: DefKind::AssocFn };
        let callee = self.node(Kind::Path { plain: true, segments, res }, func, 0);
        let n = self.node(Kind::Call { func: callee, args }, part, ty);
        self.hir.nodes[n].callee = Some(def);
        self.hir.nodes[n].item = Some(def);
        n
    }

    fn method(
        &mut self,
        item: Known,
        name: &str,
        receiver: usize,
        args: Vec<usize>,
        part: &str,
        ty: usize,
    ) -> usize {
        let def = self.def(item);
        let name = self.ident(name);
        let n = self.node(Kind::MethodCall { name, receiver, args }, part, ty);
        self.hir.nodes[n].callee = Some(def);
        self.hir.nodes[n].item = Some(def);
        n
    }

    fn bound(&mut self, n: usize, place: usize, item: Known, arg: Option<usize>) {
        let def = self.def(item);
        let count = match &self.hir.nodes[n].kind {
            Kind::Call { args, .. } => args.len(),
            Kind::MethodCall { args, .. } => args.len() + 1,
            _ => 0,
        };
        let bounds = self.hir.nodes[n].bounds.get_or_insert_with(|| (0..count).map(|_| vec![]).collect());
        bounds[place].push(Bound { def, arg });
    }

    fn block(&mut self, stmts: Vec<usize>, tail: Option<usize>, part: &str) -> usize {
        let block = self.node(Kind::Block { stmts, tail }, part, 0);
        let ty = tail.map_or(0, |tail| self.hir.nodes[tail].ty);
        self.node(Kind::BlockExpr { block }, part, ty)
    }

    fn let_stmt(&mut self, pat: usize, init: usize, part: &str) -> usize {
        let local = self.node(Kind::LetStmt { pat, ty: None, init: Some(init), els: None }, part, 0);
        self.node(Kind::LetDecl { local }, part, 0)
    }

    fn closure(&mut self, pat: usize, body: usize, part: &str) -> usize {
        let written = self.src[self.hir.nodes[pat].span.lo as usize..self.hir.nodes[pat].span.hi as usize].to_string();
        let param = self.node(Kind::Param { pat }, &written, 0);
        self.node(Kind::Closure { params: vec![param], body, by_move: false }, part, 0)
    }

    fn expand(&mut self, n: usize) {
        self.hir.nodes[n].span.ctxt = 7;
    }

    /// The source once the first suggestion is applied.
    fn fixed(&self, found: &Diagnostic) -> String {
        for remark in &found.remarks {
            let mut parts: Vec<(Span, String)> = match remark {
                Remark::Suggestion { span, code, .. } => vec![(*span, code.clone())],
                Remark::Multipart { parts, .. } => {
                    parts.iter().map(|(span, code)| (*span, code.clone())).collect()
                }
                _ => continue,
            };
            parts.sort_by_key(|(span, _)| span.lo);
            let mut out = String::new();
            let mut from = 0;
            for (span, code) in parts {
                out.push_str(&self.src[from..span.lo as usize]);
                out.push_str(&code);
                from = span.hi as usize;
            }
            return out + &self.src[from..];
        }
        panic!("no suggestion in {found:?}");
    }
}

fn applicability(found: &Diagnostic) -> Applicability {
    for remark in &found.remarks {
        match remark {
            Remark::Suggestion { applicability, .. } | Remark::Multipart { applicability, .. } => {
                return *applicability;
            }
            _ => {}
        }
    }
    panic!("no suggestion in {found:?}");
}

fn helps(found: &Diagnostic) -> Vec<&str> {
    found
        .remarks
        .iter()
        .filter_map(|remark| match remark {
            Remark::Help(text) | Remark::Note(text) => Some(text.as_str()),
            _ => None,
        })
        .collect()
}

fn view_fn(c: &mut Code, body: usize) {
    let view = c.def(Known::ViewTrait);
    let item = c.node(
        Kind::Item { item: ItemKind::Fn { name: "f".to_string() }, params: vec![], body: Some(body) },
        "",
        0,
    );
    c.hir.nodes[item].ret = Some(RetTy::Opaque { bounds: vec![view] });
}

#[test]
fn literal_colors_in_view_code_are_reported() {
    let mut c = Code::new("Color::srgb_hex(\"#FF0000\")");
    let arg = c.lit(Lit::Str("#FF0000".to_string()), "\"#FF0000\"", 0);
    let call = c.call(Known::ColorSrgbHex, "Color::srgb_hex", vec![arg], c.src, 0);
    assert!(hardcoded_theme_value::check_expr(&c.hir, call).is_none());
    view_fn(&mut c, call);
    let found = hardcoded_theme_value::check_expr(&c.hir, call).unwrap();
    assert_eq!(found.lint, Lint::HardcodedThemeValue);
    assert_eq!(found.message, "a literal color in view code does not adapt to the color scheme");
    assert_eq!(found.span, c.at(c.src));
    c.expand(call);
    assert!(hardcoded_theme_value::check_expr(&c.hir, call).is_none());
}

#[test]
fn literal_font_sizes_in_view_code_are_reported_on_the_setter() {
    let mut c = Code::new("label.size(18.0)");
    let label = c.path("label", 0);
    let size = c.lit(Lit::Float { digits: "18.0".to_string(), zero: false, suffixed: false }, "18.0", 0);
    let call = c.method(Known::TextSize, "size", label, vec![size], c.src, 0);
    view_fn(&mut c, call);
    let found = hardcoded_theme_value::check_expr(&c.hir, call).unwrap();
    assert_eq!(found.span, c.at(".size(18.0)"));
    assert_eq!(found.message, "a literal font size in view code does not follow the typography scale");

    let mut c = Code::new("label.size(big)");
    let label = c.path("label", 0);
    let size = c.path("big", 0);
    let call = c.method(Known::TextSize, "size", label, vec![size], c.src, 0);
    view_fn(&mut c, call);
    assert!(hardcoded_theme_value::check_expr(&c.hir, call).is_none());
}

fn image(modifier: Option<(Known, Lit)>) -> Vec<Diagnostic> {
    let mut c = Code::new("photo(url).a11y(x)");
    let ty = c.adt(Known::Photo, vec![]);
    let url = c.path("url", 0);
    let call = c.call(Known::TextFn, "photo", vec![url], "photo(url)", ty);
    let mut top = call;
    if let Some((item, lit)) = modifier {
        let x = c.lit(lit, "x", 0);
        top = c.method(item, "a11y", call, vec![x], c.src, 0);
    }
    let stmt = c.node(Kind::Semi { expr: top }, "", 0);
    let _ = stmt;
    image_without_label::check_expr(&c.hir, call).into_iter().collect()
}

#[test]
fn images_need_a_label() {
    let found = image(None);
    assert_eq!(found.len(), 1);
    assert_eq!(found[0].message, "this image has no accessibility label");
    assert!(image(Some((Known::A11yLabel, Lit::Str("cat".to_string())))).is_empty());
    assert!(image(Some((Known::A11yHidden, Lit::Bool(true)))).is_empty());
    let visible = image(Some((Known::A11yHidden, Lit::Bool(false))));
    assert_eq!(visible.len(), 1);
    assert_eq!(visible[0].span, Span { lo: 0, hi: 18, ctxt: 0 });
}

#[test]
fn bound_images_may_be_labelled_later() {
    let mut c = Code::new("let p = photo(url);");
    let ty = c.adt(Known::Photo, vec![]);
    let url = c.path("url", 0);
    let call = c.call(Known::TextFn, "photo", vec![url], "photo(url)", ty);
    let pat = c.binding("p", ty);
    c.let_stmt(pat, call, c.src);
    assert!(image_without_label::check_expr(&c.hir, call).is_none());
}

#[test]
fn lists_do_not_belong_into_scroll_views() {
    let mut c = Code::new("scroll(list.tint(x))");
    let list_ty = c.adt(Known::ListView, vec![]);
    let meta_ty = c.adt(Known::Metadata, vec![]);
    let list = c.path("list", list_ty);
    let x = c.path("x", 0);
    let tinted = c.method(Known::Foreground, "tint", list, vec![x], "list.tint(x)", meta_ty);
    let call = c.call(Known::ScrollFn, "scroll", vec![tinted], c.src, 0);
    let found = list_in_scroll::check_expr(&c.hir, call).unwrap();
    assert_eq!(found.message, "a `List` inside `scroll(..)` is given unbounded height");
    assert!(found.remarks.iter().any(|r| matches!(r, Remark::Label(span, _) if *span == c.at("list.tint(x)"))));

    let mut c = Code::new("scroll(rows)");
    let rows = c.path("rows", 0);
    let call = c.call(Known::ScrollFn, "scroll", vec![rows], c.src, 0);
    assert!(list_in_scroll::check_expr(&c.hir, call).is_none());
}

#[test]
fn muted_foreground_has_a_short_form() {
    let mut c = Code::new("label.foreground(MutedForeground)");
    let label = c.path("label", 0);
    let def = c.def(Known::MutedForeground);
    let ctor = c.named("ctor");
    c.hir.defs[ctor].ctor_of = Some(def);
    let segments = vec![c.ident("MutedForeground")];
    let res = Res::Def { def: ctor, kind: DefKind::Ctor };
    let token = c.node(Kind::Path { plain: true, segments, res }, "MutedForeground", 0);
    let call = c.method(Known::Foreground, "foreground", label, vec![token], c.src, 0);
    let found = manual_muted_foreground::check_expr(&c.hir, call).unwrap();
    assert_eq!(c.fixed(&found), "label.muted()");
    assert_eq!(applicability(&found), Applicability::MachineApplicable);
}

#[test]
fn empty_labels_are_reported() {
    let mut c = Code::new("button(\" \").a11y_label(\"\")");
    let blank = c.lit(Lit::Str(" ".to_string()), "\" \"", 0);
    let button = c.call(Known::TextFn, "button", vec![blank], "button(\" \")", 0);
    c.bound(button, 0, Known::IntoLabel, None);
    let found = empty_label_literal::check_expr(&c.hir, button);
    assert_eq!(found.len(), 1);
    assert_eq!(found[0].message, "an empty label defeats the mandatory label");
    let empty = c.lit(Lit::Str(String::new()), "\"\"", 0);
    let call = c.method(Known::A11yLabel, "a11y_label", button, vec![empty], c.src, 0);
    assert_eq!(empty_label_literal::check_expr(&c.hir, call).len(), 1);
    c.hir.nodes[empty].kind = Kind::Lit { lit: Lit::Str("Save".to_string()) };
    assert!(empty_label_literal::check_expr(&c.hir, call).is_empty());
}

fn if_chain(c: &mut Code, view: usize) -> (usize, usize) {
    let x = c.path("y", view);
    let last = c.block(vec![], Some(x), "{ y }");
    let cond = c.path("q", 0);
    let mid = c.path("z", view);
    let then = c.block(vec![], Some(mid), "{ z }");
    let inner = c.node(Kind::If { cond, then, els: Some(last) }, "if q { z } else { y }", view);
    let cond = c.path("p", 0);
    let first = c.path("x", view);
    let then = c.block(vec![], Some(first), "{ x }");
    let outer = c.node(Kind::If { cond, then, els: Some(inner) }, c.src, view);
    (outer, inner)
}

#[test]
fn a_chain_of_views_reports_once() {
    let mut c = Code::new("if p { x } else if q { z } else { y }");
    let view = c.adt(Known::AnyView, vec![]);
    c.hir.types[view].impls.push(Impl { trait_: Trait::View, args: vec![] });
    let (outer, inner) = if_chain(&mut c, view);
    let mut lint = if_else_view::IfElseView::default();
    let when = Some(c.def(Known::When));
    let module = module();
    let found = lint.check_expr(&c.hir, &module, when, outer).unwrap();
    assert_eq!(found.lint, Lint::IfElseView);
    assert!(lint.check_expr(&c.hir, &module, when, inner).is_none());
}

#[test]
fn a_chain_of_plain_values_is_left_alone() {
    let mut c = Code::new("if p { x } else if q { z } else { y }");
    let (outer, _) = if_chain(&mut c, 0);
    let mut lint = if_else_view::IfElseView::new();
    assert!(lint.check_expr(&c.hir, &module(), None, outer).is_none());
}

#[test]
fn fixed_children_go_into_a_tuple() {
    let mut c = Code::new("vstack(vec![a, b])");
    let a = c.path("a", 0);
    let b = c.path("b", 0);
    let children = c.node(Kind::OtherExpr { parts: vec![a, b] }, "vec![a, b]", 0);
    c.hir.nodes[children].vec_macro = Some(VecMacro {
        elements: vec![a, b],
        span: c.at("vec![a, b]"),
        text: Some("vec![a, b]".to_string()),
    });
    let call = c.call(Known::VstackFn, "vstack", vec![children], c.src, 0);
    let found = fixed_children_in_vec::check_stack_contents(&c.hir, call).unwrap();
    assert_eq!(found.lint, Lint::FixedChildrenInVec);
    assert_eq!(c.fixed(&found), "vstack((a, b))");
    c.expand(call);
    assert!(fixed_children_in_vec::check_stack_contents(&c.hir, call).is_none());
}

#[test]
fn needless_erasures_of_arguments_are_stripped() {
    let mut c = Code::new("vstack(AnyView::new(a))");
    let any = c.adt(Known::AnyView, vec![]);
    let plain = c.ty(TyKind::Bool);
    c.hir.types[plain].impls.push(Impl { trait_: Trait::View, args: vec![] });
    let a = c.path("a", plain);
    let erased = c.call(Known::AnyViewNew, "AnyView::new", vec![a], "AnyView::new(a)", any);
    let call = c.call(Known::VstackFn, "vstack", vec![erased], c.src, 0);
    c.bound(call, 0, Known::ViewTrait, None);
    let found = needless_anyview::check_expr(&c.hir, erased);
    assert_eq!(found.len(), 1);
    assert_eq!(c.fixed(&found[0]), "vstack(a)");
}

#[test]
fn anyview_new_in_a_free_function_has_a_method_form() {
    let mut c = Code::new("AnyView::new(a)");
    let any = c.adt(Known::AnyView, vec![]);
    let a = c.path("a", 0);
    let erased = c.call(Known::AnyViewNew, "AnyView::new", vec![a], c.src, any);
    let body = c.block(vec![], Some(erased), c.src);
    c.node(
        Kind::Item { item: ItemKind::Fn { name: "f".to_string() }, params: vec![], body: Some(body) },
        "",
        0,
    );
    let ext = c.def(Known::ViewExtTrait);
    let found = anyview_new_in_free_fn::check_expr(&c.hir, &module(), Some(ext), erased).unwrap();
    assert_eq!(found.lint, Lint::AnyviewNewInFreeFn);
}
