#![allow(dead_code)]

use waterui_lints::binding::Nameable;
use waterui_lints::binding_parameter_by_value::BindingParameterByValue;
use waterui_lints::blocking_in_ui_context::{BlockingInUiContext, PathPattern};
use waterui_lints::collection_item_snapshot;
use waterui_lints::computed_parameter::ComputedParameter;
use waterui_lints::default_binding_constructor;
use waterui_lints::diagnostics::{Applicability, Diagnostic, Remark};
use waterui_lints::discarded_wait_result;
use waterui_lints::fixed_children_in_vec;
use waterui_lints::handler_captures_binding;
use waterui_lints::hir::{
    Bound, CapturedVar, ClosureKind, Def, DefKind, ForLoop, Hir, Ident, Impl, ItemKind, Kind,
    Lit, Meaning, Namespace, Node, Res, Span, Sugg, Trait, Ty, TyKind, UnOp,
};
use waterui_lints::imports::{ModChild, Module};
use waterui_lints::known::Known;
use waterui_lints::lint::Lint;
use waterui_lints::manual_binding_mutation;
use waterui_lints::manual_list_mutation;
use waterui_lints::needless_list_snapshot;
use waterui_lints::signature::{FnHome, Function};

fn module() -> Module {
    Module { children: vec![], ambiguous: vec![], uses: vec![], inject: None, inject_indent: None }
}

struct Code {
    hir: Hir,
    src: &'static str,
}

impl Code {
    fn new(src: &'static str) -> Code {
        let mut hir = Hir::new();
        hir.add_type(Ty::new(TyKind::Tuple { parts: vec![] })).unwrap();
        Code { hir, src }
    }

    fn at(&self, part: &str) -> Span {
        let lo = self.src.find(part).expect(part);
        Span { lo: lo as u32, hi: (lo + part.len()) as u32, ctxt: 0 }
    }

    fn def(&mut self, item: Known) -> usize {
        self.named(item.text())
    }

    fn named(&mut self, path: &str) -> usize {
        self.hir.add_def(Def { path: path.split("::").map(str::to_string).collect(), ctor_of: None })
    }

    fn ty(&mut self, kind: TyKind) -> usize {
        self.hir.add_type(Ty::new(kind)).unwrap()
    }

    fn adt(&mut self, item: Known, args: Vec<usize>) -> usize {
        let def = self.def(item);
        self.ty(TyKind::Adt { def, args })
    }

    fn signal(&mut self, kind: TyKind, output: usize) -> usize {
        let t = self.ty(kind);
        self.hir.types[t].impls.push(Impl { trait_: Trait::Signal, args: vec![] });
        self.hir.types[t].output = Some(output);
        t
    }

    fn node(&mut self, kind: Kind, part: &str, ty: usize) -> usize {
        let mut node = Node::new(kind, self.at(part), ty);
        node.snippet = Some(part.to_string());
        node.sugg = Some(Sugg { plain: part.to_string(), operand: part.to_string() });
        node.callsite = Some(part.to_string());
        node.indent = Some(String::new());
        self.hir.add_node(node).expect(part)
    }

    fn path(&mut self, part: &str, ty: usize) -> usize {
        let segments = part.split("::").map(|name| self.ident(name)).collect();
        self.node(Kind::Path { plain: true, segments, res: Res::Other }, part, ty)
    }

    fn local(&mut self, part: &str, id: usize, ty: usize) -> usize {
        let segments = vec![self.ident(part)];
        let n = self.node(Kind::Path { plain: true, segments, res: Res::Local(id) }, part, ty);
        self.hir.nodes[n].place = true;
        n
    }

    fn binding(&mut self, part: &str, ty: usize) -> usize {
        let id = self.hir.nodes.len();
        let name = self.ident(part);
        self.node(Kind::Binding { name, id, sub: None }, part, ty)
    }

    fn lit(&mut self, lit: Lit, part: &str, ty: usize) -> usize {
        self.node(Kind::Lit { lit }, part, ty)
    }

    fn ident(&self, name: &str) -> Ident {
        let lo = self.src.find(name).unwrap_or(0);
        let span = Span { lo: lo as u32, hi: (lo + name.len()) as u32, ctxt: 0 };
        Ident { name: name.to_string(), written: name.to_string(), usable: true, span }
    }

    fn call(&mut self, item: Known, func: &str, args: Vec<usize>, part: &str, ty: usize) -> usize {
        let def = self.def(item);
        let segments = func.split("::").map(|name| self.ident(name)).collect();
        let res = Res::Def { def, kind: DefKind::AssocFn };
        let callee = self.node(Kind::Path { plain: true, segments, res }, func, 0);
        let n = self.node(Kind::Call { func: callee, args }, part, ty);
        self.hir.nodes[n].callee = Some(def);
        self.hir.nodes[n].item = Some(def);
        n
    }

    fn method(
        &mut self,
        item: Known,
        name: &str,
        receiver: usize,
        args: Vec<usize>,
        part: &str,
        ty: usize,
    ) -> usize {
        let def = self.def(item);
        let name = self.ident(name);
        let n = self.node(Kind::MethodCall { name, receiver, args }, part, ty);
        self.hir.nodes[n].callee = Some(def);
        self.hir.nodes[n].item = Some(def);
        n
    }

    fn bound(&mut self, n: usize, place: usize, item: Known, arg: Option<usize>) {
        let def = self.def(item);
        let count = match &self.hir.nodes[n].kind {
            Kind::Call { args, .. } => args.len(),
            Kind::MethodCall { args, .. } => args.len() + 1,
            _ => 0,
        };
        let bounds = self.hir.nodes[n].bounds.get_or_insert_with(|| (0..count).map(|_| vec![]).collect());
        bounds[place].push(Bound { def, arg });
    }

    fn block(&mut self, stmts: Vec<usize>, tail: Option<usize>, part: &str) -> usize {
        let block = self.node(Kind::Block { stmts, tail }, part, 0);
        let ty = tail.map_or(0, |tail| self.hir.nodes[tail].ty);
        self.node(Kind::BlockExpr { block }, part, ty)
    }

    fn let_stmt(&mut self, pat: usize, init: usize, part: &str) -> usize {
        let local = self.node(Kind::LetStmt { pat, ty: None, init: Some(init), els: None }, part, 0);
        self.node(Kind::LetDecl { local }, part, 0)
    }

    fn closure(&mut self, pat: usize, body: usize, part: &str) -> usize {
        let written = self.src[self.hir.nodes[pat].span.lo as usize..self.hir.nodes[pat].span.hi as usize].to_string();
        let param = self.node(Kind::Param { pat }, &written, 0);
        self.node(Kind::Closure { params: vec![param], body, by_move: false }, part, 0)
    }

    fn expand(&mut self, n: usize) {
        self.hir.nodes[n].span.ctxt = 7;
    }

    /// The source once the first suggestion is applied.
    fn fixed(&self, found: &Diagnostic) -> String {
        for remark in &found.remarks {
            let mut parts: Vec<(Span, String)> = match remark {
                Remark::Suggestion { span, code, .. } => vec![(*span, code.clone())],
                Remark::Multipart { parts, .. } => {
                    parts.iter().map(|(span, code)| (*span, code.clone())).collect()
                }
                _ => continue,
            };
            parts.sort_by_key(|(span, _)| span.lo);
            let mut out = String::new();
            let mut from = 0;
            for (span, code) in parts {
                out.push_str(&self.src[from..span.lo as usize]);
                out.push_str(&code);
                from = span.hi as usize;
            }
            return out + &self.src[from..];
        }
        panic!("no suggestion in {found:?}");
    }
}

fn applicability(found: &Diagnostic) -> Applicability {
    for remark in &found.remarks {
        match remark {
            Remark::Suggestion { applicability, .. } | Remark::Multipart { applicability, .. } => {
                return *applicability;
            }
            _ => {}
        }
    }
    panic!("no suggestion in {found:?}");
}

fn helps(found: &Diagnostic) -> Vec<&str> {
    found
        .remarks
        .iter()
        .filter_map(|remark| match remark {
            Remark::Help(text) | Remark::Note(text) => Some(text.as_str()),
            _ => None,
        })
        .collect()
}

fn binding_of(c: &mut Code, value: TyKind) -> (usize, usize) {
    let value = c.ty(value);
    (c.adt(Known::Binding, vec![value]), value)
}

#[test]
fn writing_through_the_guard_has_a_method_form() {
    let mut c = Code::new("*b.get_mut() = 3;");
    let (binding, int) = binding_of(&mut c, TyKind::Int { bits: Some(32) });
    let b = c.path("b", binding);
    let guard = c.method(Known::BindingGetMut, "get_mut", b, vec![], "b.get_mut()", 0);
    let lhs = c.node(Kind::Unary { op: UnOp::Deref, operand: guard }, "*b.get_mut()", int);
    let rhs = c.lit(Lit::Int { value: 3, suffixed: false }, "3", int);
    let assign = c.node(Kind::Assign { lhs, rhs }, "*b.get_mut() = 3", 0);
    assert!(manual_binding_mutation::check_expr(&c.hir, assign).is_none());
    c.node(Kind::Semi { expr: assign }, c.src, 0);
    let found = manual_binding_mutation::check_expr(&c.hir, assign).unwrap();
    assert_eq!(found.lint, Lint::ManualBindingMutation);
    assert_eq!(c.fixed(&found), "b.set(3);");
}

#[test]
fn flipping_a_flag_has_a_method_form() {
    let mut c = Code::new("b.with_mut(|v| *v = !*v);");
    let (binding, flag) = binding_of(&mut c, TyKind::Bool);
    let by_ref = c.ty(TyKind::Ref { inner: flag, mutable: true });
    let b = c.path("b", binding);
    let pat = c.binding("v", by_ref);
    let read = c.local("v", pat, by_ref);
    let value = c.node(Kind::Unary { op: UnOp::Deref, operand: read }, "*v", flag);
    let rhs = c.node(Kind::Unary { op: UnOp::Not, operand: value }, "!*v", flag);
    let place = c.local("v", pat, by_ref);
    let lhs = c.node(Kind::Unary { op: UnOp::Deref, operand: place }, "*v", flag);
    let body = c.node(Kind::Assign { lhs, rhs }, "*v = !*v", 0);
    let closure = c.closure(pat, body, "|v| *v = !*v");
    let call = c.method(Known::BindingWithMut, "with_mut", b, vec![closure], "b.with_mut(|v| *v = !*v)", 0);
    c.node(Kind::Semi { expr: call }, c.src, 0);
    let found = manual_binding_mutation::check_expr(&c.hir, call).unwrap();
    assert_eq!(c.fixed(&found), "b.toggle();");
}

#[test]
fn replacing_by_nothing_is_clearing() {
    let mut c = Code::new("rows.replace(Vec::new());");
    let rows = c.path("rows", 0);
    let empty = c.call(Known::VecNew, "Vec::new", vec![], "Vec::new()", 0);
    let call = c.method(Known::ListReplace, "replace", rows, vec![empty], "rows.replace(Vec::new())", 0);
    c.node(Kind::Semi { expr: call }, c.src, 0);
    let found = manual_list_mutation::check_expr(&c.hir, call).unwrap();
    assert_eq!(found.message, "this `replace` with an empty vector is `List::clear`");
    assert_eq!(c.fixed(&found), "rows.clear();");
    c.expand(call);
    assert!(manual_list_mutation::check_expr(&c.hir, call).is_none());
}

#[test]
fn lists_iterate_without_a_snapshot() {
    let mut c = Code::new("rows.snapshot().into_iter()");
    let rows = c.path("rows", 0);
    let copy = c.method(Known::ListSnapshot, "snapshot", rows, vec![], "rows.snapshot()", 0);
    let call = c.method(Known::TextFn, "into_iter", copy, vec![], c.src, 0);
    let found = needless_list_snapshot::check_expr(&c.hir, &module(), None, call).unwrap();
    assert_eq!(found.lint, Lint::NeedlessListSnapshot);
    assert_eq!(c.fixed(&found), "rows.iter()");
}

#[test]
fn defaults_seed_bindings_by_name() {
    let mut c = Code::new("binding(Settings::default())");
    let settings = c.named("krate::Settings");
    let value = c.ty(TyKind::Adt { def: settings, args: vec![] });
    c.hir.types[value].impls.push(Impl { trait_: Trait::Default, args: vec![] });
    let binding_def = c.def(Known::Binding);
    let binding = c.ty(TyKind::Adt { def: binding_def, args: vec![value] });
    let res = Res::Def { def: settings, kind: DefKind::Struct };
    let qself = c.node(Kind::PathTy { res }, "Settings", value);
    let seed = c.call(Known::DefaultFn, "Settings::default", vec![], "Settings::default()", value);
    let Kind::Call { func, .. } = c.hir.nodes[seed].kind else { panic!() };
    c.hir.nodes[func].qself = Some(qself);
    c.hir.nodes[func].item = c.hir.nodes[seed].item;
    let call = c.call(Known::BindingFn, "binding", vec![seed], c.src, binding);
    let nameable = Nameable { waterui: true, nami: false };
    let mut home = module();
    home.children.push(ModChild {
        name: "Binding".to_string(),
        ns: Some(Namespace::Type),
        meaning: Meaning { def: Some(binding_def) },
    });
    let found = default_binding_constructor::check_expr(&c.hir, &home, nameable, None, call).unwrap();
    assert_eq!(found.message, "this binding is seeded with its type's default");
    assert!(format!("{:?}", found.remarks).contains("Binding::<Settings>::default()"), "{found:?}");
    c.hir.types[value].impls.clear();
    assert!(default_binding_constructor::check_expr(&c.hir, &home, nameable, None, call).is_none());
}

#[test]
fn lists_are_seeded_from_a_sequence() {
    let mut c = Code::new("{ let rows = List::new(); for x in xs { rows.push(x); } }");
    let list = c.call(Known::ListNew, "List::new", vec![], "List::new()", 0);
    let pat = c.binding("rows", 0);
    let stmt = c.let_stmt(pat, list, "let rows = List::new();");
    let xs = c.local("xs", 900, 0);
    let rows = c.local("rows", pat, 0);
    let x = c.local("x", 901, 0);
    let push = c.method(Known::ListPush, "push", rows, vec![x], "rows.push(x)", 0);
    let semi = c.node(Kind::Semi { expr: push }, "rows.push(x);", 0);
    let body = c.block(vec![semi], None, "{ rows.push(x); }");
    let for_expr = c.node(Kind::OtherExpr { parts: vec![xs, body] }, "for x in xs { rows.push(x); }", 0);
    c.hir.nodes[for_expr].for_loop =
        Some(ForLoop { arg: xs, body, span: c.at("for x in xs { rows.push(x); }") });
    let for_stmt = c.node(Kind::ExprStmt { expr: for_expr }, "for x in xs { rows.push(x); }", 0);
    let block = c.node(Kind::Block { stmts: vec![stmt, for_stmt], tail: None }, c.src, 0);
    let found = fixed_children_in_vec::check_block(&c.hir, block);
    assert_eq!(found.len(), 1);
    assert_eq!(found[0].lint, Lint::PushLoopSeed);
    c.expand(block);
    assert!(fixed_children_in_vec::check_block(&c.hir, block).is_empty());
}

/// `fn show(b: Binding<i32>) { }` and a call `show(b.clone())`.
fn shown(c: &mut Code, qualified: bool) -> (Vec<Function>, usize) {
    let (binding, _) = binding_of(c, TyKind::Int { bits: Some(32) });
    let def = c.named("krate::show");
    let pat = c.binding("b", binding);
    let param = c.node(Kind::Param { pat }, "b: Binding<i32>", 0);
    let body = c.block(vec![], None, "{ }");
    let written = c.node(Kind::PathTy { res: Res::Other }, "Binding<i32>", binding);
    let node = c.node(
        Kind::Item { item: ItemKind::Fn { name: "show".to_string() }, params: vec![param], body: Some(body) },
        "fn show(b: Binding<i32>) { }",
        0,
    );
    let other = c.local("b", 900, binding);
    let clone = c.method(Known::Clone, "clone", other, vec![], "b.clone()", binding);
    let callee = c.path("show", 0);
    let call = c.node(Kind::Call { func: callee, args: vec![clone] }, "show(b.clone())", 0);
    c.hir.nodes[call].callee = Some(def);
    c.hir.nodes[call].item = Some(def);
    let function = Function {
        def,
        node,
        home: FnHome::Free,
        is_const: false,
        is_extern: false,
        exported: false,
        qualified,
        owner_qualified: false,
        inputs: vec![binding],
        written: vec![written],
    };
    (vec![function], call)
}

#[test]
fn binding_parameters_are_borrowed() {
    let src = "fn show(b: Binding<i32>) { } show(b.clone())";
    let mut c = Code::new(src);
    let (fns, call) = shown(&mut c, false);
    let mut lint = BindingParameterByValue::new();
    lint.check_fn(&c.hir, &fns, 0);
    assert!(lint.check_crate_post(&c.hir, &fns).is_empty());
    lint.check_expr(&c.hir, &fns, call);
    let found = lint.check_crate_post(&c.hir, &fns);
    assert_eq!(found.len(), 1);
    assert!(c.fixed(&found[0]).starts_with("fn show(b: &Binding<i32>) { }"), "{}", c.fixed(&found[0]));
    assert!(c.fixed(&found[0]).ends_with("show(&b)"), "{}", c.fixed(&found[0]));
}

#[test]
fn public_binding_parameters_need_no_caller() {
    let mut c = Code::new("fn show(b: Binding<i32>) { } show(b.clone())");
    let (mut fns, _) = shown(&mut c, true);
    let mut lint = BindingParameterByValue::new();
    lint.check_fn(&c.hir, &fns, 0);
    assert_eq!(lint.check_crate_post(&c.hir, &fns).len(), 1);
    fns[0].home = FnHome::TraitImpl;
    let mut lint = BindingParameterByValue::new();
    lint.check_fn(&c.hir, &fns, 0);
    assert!(lint.check_crate_post(&c.hir, &fns).is_empty());
}

#[test]
fn public_functions_take_any_signal() {
    let mut c = Code::new("fn show(t: Computed<i32>) { }");
    let int = c.ty(TyKind::Int { bits: Some(32) });
    let computed = c.adt(Known::Computed, vec![int]);
    let def = c.named("krate::show");
    let pat = c.binding("t", computed);
    let param = c.node(Kind::Param { pat }, "t: Computed<i32>", 0);
    let body = c.block(vec![], None, "{ }");
    let written = c.node(Kind::PathTy { res: Res::Other }, "Computed<i32>", computed);
    let node = c.node(
        Kind::Item { item: ItemKind::Fn { name: "show".to_string() }, params: vec![param], body: Some(body) },
        c.src,
        0,
    );
    let mut fns = vec![Function {
        def,
        node,
        home: FnHome::Free,
        is_const: false,
        is_extern: false,
        exported: false,
        qualified: true,
        owner_qualified: false,
        inputs: vec![computed],
        written: vec![written],
    }];
    let nameable = Nameable { waterui: true, nami: false };
    let modules = vec![module()];
    let mut lint = ComputedParameter::new();
    lint.check_fn(&c.hir, &fns, 0);
    let found = lint.check_crate_post(&c.hir, &modules, nameable, None, &fns);
    assert_eq!(found.len(), 1);
    assert_eq!(found[0].message, "a public function takes `Computed<T>` where callers would pass any signal");
    fns[0].qualified = false;
    assert!(lint.check_crate_post(&c.hir, &modules, nameable, None, &fns).is_empty());
}

#[test]
fn handlers_name_each_captured_handle_once() {
    let mut c = Code::new("button.action(|| b.set(1))");
    let (binding, _) = binding_of(&mut c, TyKind::Int { bits: Some(32) });
    let button = c.path("button", 0);
    let body = c.path("b", binding);
    let closure = c.node(Kind::Closure { params: vec![], body, by_move: false }, "|| b.set(1)", 0);
    let at = c.at("b.set");
    let var = |span: Span| CapturedVar { name: "b".to_string(), span, ty: binding };
    c.hir.nodes[closure].captured = vec![var(at), var(at)];
    let call = c.method(Known::TextFn, "action", button, vec![closure], c.src, 0);
    assert!(handler_captures_binding::check_expr(&c.hir, call).is_empty());
    c.hir.nodes[call].handler_args = vec![closure];
    let found = handler_captures_binding::check_expr(&c.hir, call);
    assert_eq!(found.len(), 1);
    assert_eq!(
        found[0].message,
        "this handler captures a reactive handle instead of taking it as `State<T>`"
    );
    let help = helps(&found[0]).concat();
    assert_eq!(help.matches(".state(&b)").count(), 1, "{help}");
    c.hir.nodes[closure].captured = vec![CapturedVar { name: "b".to_string(), span: at, ty: 0 }];
    assert!(handler_captures_binding::check_expr(&c.hir, call).is_empty());
}

#[test]
fn waits_are_asserted() {
    let mut c = Code::new("{ app.wait(1); let x = app.wait(2); }");
    let app = c.path("app", 0);
    let one = c.lit(Lit::Int { value: 1, suffixed: false }, "1", 0);
    let first = c.method(Known::AppExists, "wait", app, vec![one], "app.wait(1)", 0);
    let first = c.node(Kind::Semi { expr: first }, "app.wait(1);", 0);
    let app = c.path("app", 0);
    let two = c.lit(Lit::Int { value: 2, suffixed: false }, "2", 0);
    let second = c.method(Known::AppGone, "wait", app, vec![two], "app.wait(2)", 0);
    let pat = c.binding("x", 0);
    let second = c.let_stmt(pat, second, "let x = app.wait(2);");
    let block = c.node(Kind::Block { stmts: vec![first, second], tail: None }, c.src, 0);
    let found = discarded_wait_result::check_block(&c.hir, block);
    assert_eq!(found.len(), 2);
    assert_eq!(c.fixed(&found[0]), "{ assert!(app.wait(1)); let x = app.wait(2); }");
    assert!(helps(&found[1])[0].contains("returns `false` on timeout"));
    c.expand(block);
    assert!(discarded_wait_result::check_block(&c.hir, block).is_empty());
}

#[test]
fn row_properties_read_from_the_item_are_snapshots() {
    let mut c = Code::new("for_each(rows, |row| label.hidden(row.done))");
    let rows = c.path("rows", 0);
    let label = c.path("label", 0);
    let flag = c.ty(TyKind::Bool);
    let pat = c.binding("row", 0);
    let row = c.local("row", pat, 0);
    let name = c.ident("done");
    let read = c.node(Kind::Field { base: row, name }, "row.done", flag);
    let hidden = c.method(Known::TextFn, "hidden", label, vec![read], "label.hidden(row.done)", 0);
    c.bound(hidden, 1, Known::IntoSignalTrait, None);
    let closure = c.closure(pat, hidden, "|row| label.hidden(row.done)");
    let call = c.call(Known::TextFn, "for_each", vec![rows, closure], c.src, 0);
    c.hir.nodes[call].row_builder = Some(closure);
    let found = collection_item_snapshot::check_expr(&c.hir, call);
    assert_eq!(found.len(), 1);
    assert_eq!(found[0].message, "this reactive property is a snapshot of an item field");
    c.hir.types[flag].impls.push(Impl { trait_: Trait::Signal, args: vec![] });
    assert!(collection_item_snapshot::check_expr(&c.hir, call).is_empty());
}

fn segments(path: &str) -> Vec<String> {
    path.split("::").map(str::to_string).collect()
}

#[test]
fn patterns_match_paths_and_what_lies_under_them() {
    let exact = PathPattern::parse("std::thread::sleep");
    assert!(exact.matches(&segments("std::thread::sleep")));
    assert!(!exact.matches(&segments("std::thread")));
    assert!(!exact.matches(&segments("std::thread::sleep::x")));
    let prefix = PathPattern::parse("std::fs::*");
    assert!(prefix.matches(&segments("std::fs::read")));
    assert!(prefix.matches(&segments("std::fs::File::open")));
    assert!(!prefix.matches(&segments("std::fsx::read")));
    assert!(prefix.matches(&segments("std::fs")));
    assert!(!prefix.matches(&segments("std")));
    // A segment is compared whole, whatever it holds.
    let split = vec!["std::thread".to_string(), "sleep".to_string()];
    assert!(!exact.matches(&split));
    let odd = PathPattern::parse("a:::*");
    assert!(odd.prefix);
    assert!(odd.matches(&vec!["a:".to_string(), "b".to_string()]));
}

/// `button.action(|| f())` with `f` at `path`.
fn handled(c: &mut Code, path: &str) -> (usize, usize) {
    let def = c.named(path);
    let button = c.path("button", 0);
    let callee = c.path("f", 0);
    let call = c.node(Kind::Call { func: callee, args: vec![] }, "f()", 0);
    c.hir.nodes[call].callee = Some(def);
    c.hir.nodes[call].item = Some(def);
    let closure = c.node(Kind::Closure { params: vec![], body: call, by_move: false }, "|| f()", 0);
    let action = c.method(Known::TextFn, "action", button, vec![closure], c.src, 0);
    c.hir.nodes[action].handler_args = vec![closure];
    (action, call)
}

#[test]
fn handlers_do_not_block() {
    for (path, lint) in [
        ("std::fs::read", Some(Lint::BlockingInUiContext)),
        ("std::thread::sleep", Some(Lint::ThreadSleepInUi)),
        ("krate::slow::work", Some(Lint::BlockingInUiContext)),
        ("krate::fast", None),
    ] {
        let mut c = Code::new("button.action(|| f())");
        let (action, call) = handled(&mut c, path);
        let mut pass = BlockingInUiContext::new(&vec!["krate::slow::*".to_string()]);
        assert!(pass.check_expr(&c.hir, action).is_none());
        assert_eq!(pass.check_expr(&c.hir, call).map(|found| found.lint), lint, "{path}");
    }
}

#[test]
fn async_blocks_do_not_block_and_other_closures_may() {
    for (kind, found) in [(ClosureKind::Async, true), (ClosureKind::Plain, false)] {
        let mut c = Code::new("spawn(|| f())");
        let def = c.named("std::fs::read");
        let callee = c.path("f", 0);
        let call = c.node(Kind::Call { func: callee, args: vec![] }, "f()", 0);
        c.hir.nodes[call].item = Some(def);
        let closure = c.node(Kind::Closure { params: vec![], body: call, by_move: false }, "|| f()", 0);
        c.hir.nodes[closure].closure_kind = kind;
        c.call(Known::TextFn, "spawn", vec![closure], c.src, 0);
        let mut pass = BlockingInUiContext::new(&vec![]);
        assert_eq!(pass.check_expr(&c.hir, call).is_some(), found);
    }
}

#[test]
fn trees_are_built_from_the_leaves_up() {
    let mut hir = Hir::new();
    let span = Span { lo: 0, hi: 1, ctxt: 0 };
    assert!(hir.add_node(Node::new(Kind::Wild, span, 0)).is_none());
    assert!(hir.add_type(Ty::new(TyKind::Slice { element: 0 })).is_none());
    let ty = hir.add_type(Ty::new(TyKind::Bool)).unwrap();
    let leaf = hir.add_node(Node::new(Kind::Wild, span, ty)).unwrap();
    assert!(hir.add_node(Node::new(Kind::Semi { expr: 5 }, span, ty)).is_none());
    let stmt = hir.add_node(Node::new(Kind::Semi { expr: leaf }, span, ty)).unwrap();
    assert_eq!(hir.nodes[leaf].parent, Some(stmt));
    assert!(hir.add_node(Node::new(Kind::Semi { expr: leaf }, span, ty)).is_none());
}
