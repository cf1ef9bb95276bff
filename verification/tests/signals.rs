#![allow(dead_code)]

use waterui_lints::diagnostics::{Applicability, Diagnostic, Remark};
use waterui_lints::format_args::{ArgKind, FormatArg, FormatArgs, FormatOptions, FormatPiece, FormatTrait};
use waterui_lints::hir::{
    BinOp, Bound, CallSig, Def, DefKind, Hir, Home, Ident, Impl, Kind, Lit, MacroCall, Meaning,
    Namespace, Node, Res, Span, Sugg, Trait, Ty, TyKind, UnOp,
};
use waterui_lints::imports::{ModChild, Module};
use waterui_lints::known::Known;
use waterui_lints::lint::Lint;
use waterui_lints::manual_computed;
use waterui_lints::manual_signal_combinator;
use waterui_lints::manual_signal_zip_op;
use waterui_lints::manual_string_signal;
use waterui_lints::manual_text_map;
use waterui_lints::needless_computed;
use waterui_lints::needless_signal_cast;

/// A module in which `text` is the macro.
fn module(text_macro: usize) -> Module {
    Module {
        children: vec![ModChild {
            name: "text".to_string(),
            ns: Some(Namespace::Macro),
            meaning: Meaning { def: Some(text_macro) },
        }],
        ambiguous: vec![],
        uses: vec![],
        inject: None,
        inject_indent: None,
    }
}

struct Code {
    hir: Hir,
    src: &'static str,
}

impl Code {
    fn new(src: &'static str) -> Code {
        let mut hir = Hir::new();
        hir.add_type(Ty::new(TyKind::Tuple { parts: vec![] })).unwrap();
        Code { hir, src }
    }

    fn at(&self, part: &str) -> Span {
        let lo = self.src.find(part).expect(part);
        Span { lo: lo as u32, hi: (lo + part.len()) as u32, ctxt: 0 }
    }

    fn def(&mut self, item: Known) -> usize {
        self.named(item.text())
    }

    fn named(&mut self, path: &str) -> usize {
        self.hir.add_def(Def { path: path.split("::").map(str::to_string).collect(), ctor_of: None })
    }

    fn ty(&mut self, kind: TyKind) -> usize {
        self.hir.add_type(Ty::new(kind)).unwrap()
    }

    fn adt(&mut self, item: Known, args: Vec<usize>) -> usize {
        let def = self.def(item);
        self.ty(TyKind::Adt { def, args })
    }

    fn signal(&mut self, kind: TyKind, output: usize) -> usize {
        let t = self.ty(kind);
        self.hir.types[t].impls.push(Impl { trait_: Trait::Signal, args: vec![] });
        self.hir.types[t].output = Some(output);
        t
    }

    fn node(&mut self, kind: Kind, part: &str, ty: usize) -> usize {
        let mut node = Node::new(kind, self.at(part), ty);
        node.snippet = Some(part.to_string());
        node.sugg = Some(Sugg { plain: part.to_string(), operand: part.to_string() });
        node.callsite = Some(part.to_string());
        node.indent = Some(String::new());
        self.hir.add_node(node).expect(part)
    }

    fn path(&mut self, part: &str, ty: usize) -> usize {
        let segments = part.split("::").map(|name| self.ident(name)).collect();
        self.node(Kind::Path { plain: true, segments, res: Res::Other }, part, ty)
    }

    fn local(&mut self, part: &str, id: usize, ty: usize) -> usize {
        let segments = vec![self.ident(part)];
        let n = self.node(Kind::Path { plain: true, segments, res: Res::Local(id) }, part, ty);
        self.hir.nodes[n].place = true;
        n
    }

    fn binding(&mut self, part: &str, ty: usize) -> usize {
        let id = self.hir.nodes.len();
        let name = self.ident(part);
        self.node(Kind::Binding { name, id, sub: None }, part, ty)
    }

    fn lit(&mut self, lit: Lit, part: &str, ty: usize) -> usize {
        self.node(Kind::Lit { lit }, part, ty)
    }

    fn ident(&self, name: &str) -> Ident {
        let lo = self.src.find(name).unwrap_or(0);
        let span = Span { lo: lo as u32, hi: (lo + name.len()) as u32, ctxt: 0 };
        Ident { name: name.to_string(), written: name.to_string(), usable: true, span }
    }

    fn call(&mut self, item: Known, func: &str, args: Vec<usize>, part: &str, ty: usize) -> usize {
        let def = self.def(item);
        let segments = func.split("::").map(|name| self.ident(name)).collect();
        let res = Res::Def { def, kind: DefKind::AssocFn };
        let callee = self.node(Kind::Path { plain: true, segments, res }, func, 0);
        let n = self.node(Kind::Call { func: callee, args }, part, ty);
        self.hir.nodes[n].callee = Some(def);
        self.hir.nodes[n].item = Some(def);
        n
    }

    fn method(
        &mut self,
        item: Known,
        name: &str,
        receiver: usize,
        args: Vec<usize>,
        part: &str,
        ty: usize,
    ) -> usize {
        let def = self.def(item);
        let name = self.ident(name);
        let n = self.node(Kind::MethodCall { name, receiver, args }, part, ty);
        self.hir.nodes[n].callee = Some(def);
        self.hir.nodes[n].item = Some(def);
        n
    }

    fn bound(&mut self, n: usize, place: usize, item: Known, arg: Option<usize>) {
        let def = self.def(item);
        let count = match &self.hir.nodes[n].kind {
            Kind::Call { args, .. } => args.len(),
            Kind::MethodCall { args, .. } => args.len() + 1,
            _ => 0,
        };
        let bounds = self.hir.nodes[n].bounds.get_or_insert_with(|| (0..count).map(|_| vec![]).collect());
        bounds[place].push(Bound { def, arg });
    }

    fn block(&mut self, stmts: Vec<usize>, tail: Option<usize>, part: &str) -> usize {
        let block = self.node(Kind::Block { stmts, tail }, part, 0);
        let ty = tail.map_or(0, |tail| self.hir.nodes[tail].ty);
        self.node(Kind::BlockExpr { block }, part, ty)
    }

    fn let_stmt(&mut self, pat: usize, init: usize, part: &str) -> usize {
        let local = self.node(Kind::LetStmt { pat, ty: None, init: Some(init), els: None }, part, 0);
        self.node(Kind::LetDecl { local }, part, 0)
    }

    fn closure(&mut self, pat: usize, body: usize, part: &str) -> usize {
        let written = self.src[self.hir.nodes[pat].span.lo as usize..self.hir.nodes[pat].span.hi as usize].to_string();
        let param = self.node(Kind::Param { pat }, &written, 0);
        self.node(Kind::Closure { params: vec![param], body, by_move: false }, part, 0)
    }

    fn expand(&mut self, n: usize) {
        self.hir.nodes[n].span.ctxt = 7;
    }

    /// The source once the first suggestion is applied.
    fn fixed(&self, found: &Diagnostic) -> String {
        for remark in &found.remarks {
            let mut parts: Vec<(Span, String)> = match remark {
                Remark::Suggestion { span, code, .. } => vec![(*span, code.clone())],
                Remark::Multipart { parts, .. } => {
                    parts.iter().map(|(span, code)| (*span, code.clone())).collect()
                }
                _ => continue,
            };
            parts.sort_by_key(|(span, _)| span.lo);
            let mut out = String::new();
            let mut from = 0;
            for (span, code) in parts {
                out.push_str(&self.src[from..span.lo as usize]);
                out.push_str(&code);
                from = span.hi as usize;
            }
            return out + &self.src[from..];
        }
        panic!("no suggestion in {found:?}");
    }
}

fn applicability(found: &Diagnostic) -> Applicability {
    for remark in &found.remarks {
        match remark {
            Remark::Suggestion { applicability, .. } | Remark::Multipart { applicability, .. } => {
                return *applicability;
            }
            _ => {}
        }
    }
    panic!("no suggestion in {found:?}");
}

fn helps(found: &Diagnostic) -> Vec<&str> {
    found
        .remarks
        .iter()
        .filter_map(|remark| match remark {
            Remark::Help(text) | Remark::Note(text) => Some(text.as_str()),
            _ => None,
        })
        .collect()
}

/// `s.map(|v| <body>)`, the body being made from a read of `v`.
fn map(c: &mut Code, output: usize, body: impl Fn(&mut Code, usize) -> usize) -> usize {
    let signal = c.signal(TyKind::Param, output);
    let s = c.path("s", signal);
    c.hir.nodes[s].place = true;
    let pat = c.binding("v", output);
    let body = body(c, pat);
    let closure = c.closure(pat, body, &c.src[c.src.find('|').unwrap()..c.src.find(')').unwrap()]);
    let whole = &c.src[..=c.src.rfind(')').unwrap()];
    c.method(Known::SignalMap, "map", s, vec![closure], whole, 0)
}

#[test]
fn negations_have_a_combinator() {
    let mut c = Code::new("s.map(|v| !v)");
    let bool_ty = c.ty(TyKind::Bool);
    let call = map(&mut c, bool_ty, |c, pat| {
        let operand = c.local("v", pat, bool_ty);
        c.node(Kind::Unary { op: UnOp::Not, operand }, "!v", bool_ty)
    });
    let found = manual_signal_combinator::check_expr(&c.hir, call).unwrap();
    assert_eq!(found.lint, Lint::ManualSignalCombinator);
    assert_eq!(c.fixed(&found), "s.not()");
    assert_eq!(applicability(&found), Applicability::MachineApplicable);
    c.expand(call);
    assert!(manual_signal_combinator::check_expr(&c.hir, call).is_none());
}

#[test]
fn signs_flip_by_a_combinator_where_there_are_signs() {
    for (kind, named) in [(TyKind::Int { bits: Some(32) }, true), (TyKind::Uint { bits: Some(32) }, false)] {
        let mut c = Code::new("s.map(|v| -v)");
        let ty = c.ty(kind);
        let call = map(&mut c, ty, |c, pat| {
            let operand = c.local("v", pat, ty);
            c.node(Kind::Unary { op: UnOp::Neg, operand }, "-v", ty)
        });
        let found = manual_signal_combinator::check_expr(&c.hir, call);
        assert_eq!(found.is_some(), named);
        if let Some(found) = found {
            assert_eq!(c.fixed(&found), "s.negate()");
        }
    }
}

#[test]
fn other_bodies_are_left_to_map() {
    let mut c = Code::new("s.map(|v| f(v))");
    let bool_ty = c.ty(TyKind::Bool);
    let call = map(&mut c, bool_ty, |c, pat| {
        let v = c.local("v", pat, bool_ty);
        c.call(Known::TextFn, "f", vec![v], "f(v)", bool_ty)
    });
    assert!(manual_signal_combinator::check_expr(&c.hir, call).is_none());
}

/// `s.map(|v| v)`, the call and its receiver.
fn needless_map() -> (Code, usize, usize) {
    let mut c = Code::new("s.map(|v| v)");
    let int = c.ty(TyKind::Int { bits: Some(32) });
    let call = map(&mut c, int, |c, pat| c.local("v", pat, int));
    let receiver = match &c.hir.nodes[call].kind {
        Kind::MethodCall { receiver, .. } => *receiver,
        _ => unreachable!(),
    };
    (c, call, receiver)
}

#[test]
fn a_needless_map_hands_its_receiver_over() {
    let (mut c, call, receiver) = needless_map();
    assert!(manual_signal_combinator::check_expr(&c.hir, call).is_none());
    let signal = c.hir.nodes[receiver].ty;
    c.hir.types[signal].impls.push(Impl { trait_: Trait::Clone, args: vec![] });
    let found = manual_signal_combinator::check_expr(&c.hir, call).unwrap();
    assert_eq!(c.fixed(&found), "s.clone()");
    assert_eq!(applicability(&found), Applicability::MachineApplicable);
    c.hir.nodes[receiver].sugg = Some(Sugg { plain: "*s".to_string(), operand: "(*s)".to_string() });
    let found = manual_signal_combinator::check_expr(&c.hir, call).unwrap();
    assert_eq!(c.fixed(&found), "(*s).clone()");

    let (mut c, call, receiver) = needless_map();
    c.hir.nodes[receiver].place = false;
    let found = manual_signal_combinator::check_expr(&c.hir, call).unwrap();
    assert_eq!(c.fixed(&found), "s");
    c.hir.nodes[receiver].derefs = 1;
    assert!(manual_signal_combinator::check_expr(&c.hir, call).is_none());
    let signal = c.hir.nodes[receiver].ty;
    c.hir.types[signal].impls.push(Impl { trait_: Trait::Clone, args: vec![] });
    let found = manual_signal_combinator::check_expr(&c.hir, call).unwrap();
    assert_eq!(c.fixed(&found), "s.clone()");
}

fn zip(c: &mut Code, ty: usize, op: BinOp) -> usize {
    let signal = c.signal(TyKind::Param, ty);
    let a = c.path("a", signal);
    let b = c.path("b", signal);
    let by_ref = c.ty(TyKind::Ref { inner: signal, mutable: false });
    let borrowed = c.node(Kind::AddrOf { mutable: false, raw: false, operand: b }, "&b", by_ref);
    let zipped = c.method(Known::SignalZip, "zip", a, vec![borrowed], "a.zip(&b)", 0);
    let x = c.binding("x", ty);
    let y = c.binding("y", ty);
    let pat = c.node(Kind::TuplePat { parts: vec![x, y] }, "(x, y)", 0);
    let lhs = c.local("x", x, ty);
    let rhs = c.local("y", y, ty);
    let body = c.node(Kind::Binary { op, lhs, rhs }, &c.src[c.src.find("| ").unwrap() + 2..c.src.len() - 1], ty);
    let closure = c.closure(pat, body, &c.src[c.src.find('|').unwrap()..c.src.len() - 1]);
    c.method(Known::SignalMap, "map", zipped, vec![closure], c.src, 0)
}

#[test]
fn zipped_booleans_have_their_own_operations() {
    let mut c = Code::new("a.zip(&b).map(|(x, y)| x && y)");
    let bool_ty = c.ty(TyKind::Bool);
    let call = zip(&mut c, bool_ty, BinOp::And);
    let found = manual_signal_zip_op::check_expr(&c.hir, call).unwrap();
    assert_eq!(found.message, "this `zip`/`map` pair is a named signal operation");
    assert_eq!(c.fixed(&found), "a.and(&b)");

    let mut c = Code::new("a.zip(&b).map(|(x, y)| x + y)");
    let int = c.ty(TyKind::Int { bits: Some(32) });
    let call = zip(&mut c, int, BinOp::Add);
    assert!(manual_signal_zip_op::check_expr(&c.hir, call).is_none());
}

#[test]
fn zipped_operands_are_handed_over() {
    let mut c = Code::new("a.zip(&b).map(|(x, y)| x + y)");
    let int = c.ty(TyKind::Int { bits: Some(32) });
    let call = zip(&mut c, int, BinOp::Add);
    let a = (0..c.hir.nodes.len()).find(|&n| c.hir.nodes[n].snippet.as_deref() == Some("a")).unwrap();
    let signal = c.hir.nodes[a].ty;
    c.hir.types[signal].impls.push(Impl { trait_: Trait::Op(BinOp::Add), args: vec![signal] });
    let found = manual_signal_zip_op::check_expr(&c.hir, call).unwrap();
    assert_eq!(c.fixed(&found), "a + b");
    c.hir.nodes[a].place = true;
    let found = manual_signal_zip_op::check_expr(&c.hir, call).unwrap();
    assert_eq!(c.fixed(&found), "a.clone() + b");
}

#[test]
fn hand_written_erasures_have_a_method_form() {
    let mut c = Code::new("Computed::new(s.clone())");
    let int = c.ty(TyKind::Int { bits: Some(32) });
    let signal = c.signal(TyKind::Param, int);
    let computed = c.adt(Known::Computed, vec![int]);
    let s = c.path("s", signal);
    c.hir.nodes[s].place = true;
    let clone = c.method(Known::Clone, "clone", s, vec![], "s.clone()", signal);
    let call = c.call(Known::ComputedNew, "Computed::new", vec![clone], c.src, computed);
    let found = manual_computed::check_expr(&c.hir, call).unwrap();
    assert_eq!(found.message, "this erasure is `SignalExt::computed`");
    assert_eq!(c.fixed(&found), "s.computed()");
    c.hir.types[signal].output = Some(signal);
    assert!(manual_computed::check_expr(&c.hir, call).is_none());
}

fn erased_argument(c: &mut Code) -> (usize, usize) {
    let int = c.ty(TyKind::Int { bits: Some(32) });
    let signal = c.signal(TyKind::Param, int);
    let computed = c.adt(Known::Computed, vec![int]);
    let s = c.path("s", signal);
    let erased = c.method(Known::SignalComputed, "computed", s, vec![], "s.computed()", computed);
    (erased, computed)
}

#[test]
fn erasures_that_every_consumer_accepts_are_dropped() {
    let mut c = Code::new("width(s.computed())");
    let (erased, _) = erased_argument(&mut c);
    let call = c.call(Known::TextFn, "width", vec![erased], c.src, 0);
    assert!(needless_computed::check_expr(&c.hir, erased).is_none());
    c.bound(call, 0, Known::IntoSignalTrait, None);
    let found = needless_computed::check_expr(&c.hir, erased).unwrap();
    assert_eq!(found.message, "this `computed()` erases a signal that every consumer already accepts");
    assert_eq!(c.fixed(&found), "width(s)");
    assert_eq!(applicability(&found), Applicability::MachineApplicable);
    c.bound(call, 0, Known::IntoText, None);
    assert!(needless_computed::check_expr(&c.hir, erased).is_none());
}

/// `width(s.computed())` with `s` the local 900: the erasure and the call.
fn local_erasure(c: &mut Code) -> (usize, usize) {
    let int = c.ty(TyKind::Int { bits: Some(32) });
    let signal = c.signal(TyKind::Param, int);
    let computed = c.adt(Known::Computed, vec![int]);
    let s = c.local("s", 900, signal);
    let erased = c.method(Known::SignalComputed, "computed", s, vec![], "s.computed()", computed);
    let call = c.call(Known::TextFn, "width", vec![erased], "width(s.computed())", 0);
    c.bound(call, 0, Known::IntoSignalTrait, None);
    (erased, call)
}

#[test]
fn a_receiver_that_must_not_move_is_cloned() {
    // A local that nothing reads again moves; one that is read later is cloned.
    let mut c = Code::new("width(s.computed()); s");
    let (erased, _) = local_erasure(&mut c);
    let found = needless_computed::check_expr(&c.hir, erased).unwrap();
    assert_eq!(c.fixed(&found), "width(s); s");
    c.local("s", 900, 0);
    let found = needless_computed::check_expr(&c.hir, erased).unwrap();
    assert_eq!(c.fixed(&found), "width(s.clone()); s");

    // What is bound outside a loop is read again in the next round.
    for inside in [false, true] {
        let mut c = Code::new("loop { width(s.computed()) }");
        let mut stmts = vec![];
        if inside {
            let name = c.ident("s");
            let pat = c.node(Kind::Binding { name, id: 900, sub: None }, "s", 0);
            let init = c.lit(Lit::Int { value: 0, suffixed: false }, "{", 0);
            stmts.push(c.let_stmt(pat, init, "{"));
        }
        let (erased, call) = local_erasure(&mut c);
        let block = c.node(Kind::Block { stmts, tail: Some(call) }, c.src, 0);
        c.node(Kind::Loop { block }, c.src, 0);
        let found = needless_computed::check_expr(&c.hir, erased).unwrap();
        let fixed = if inside { "width(s)" } else { "width(s.clone())" };
        assert_eq!(c.fixed(&found), format!("loop {{ {fixed} }}"));
    }

    // A place that is no local, and what is reached through a dereference.
    for (place, derefs, fixed) in [(true, 0, "width(s.clone())"), (false, 1, "width(s.clone())"), (false, 0, "width(s)")] {
        let mut c = Code::new("width(s.computed())");
        let (erased, _) = erased_argument(&mut c);
        let call = c.call(Known::TextFn, "width", vec![erased], c.src, 0);
        c.bound(call, 0, Known::IntoSignalTrait, None);
        c.hir.nodes[erased - 1].place = place;
        c.hir.nodes[erased - 1].derefs = derefs;
        let found = needless_computed::check_expr(&c.hir, erased).unwrap();
        assert_eq!(c.fixed(&found), fixed);
    }
}

#[test]
fn erasures_bound_to_a_local_follow_its_readers() {
    let mut c = Code::new("let t = s.computed(); width(t)");
    let (erased, computed) = erased_argument(&mut c);
    let pat = c.binding("t", computed);
    let stmt = c.let_stmt(pat, erased, "let t = s.computed();");
    assert!(needless_computed::check_expr(&c.hir, erased).is_none());
    let read = c.local("t", pat, computed);
    let call = c.call(Known::TextFn, "width", vec![read], "width(t)", 0);
    c.block(vec![stmt], Some(call), c.src);
    assert!(needless_computed::check_expr(&c.hir, erased).is_none());
    c.bound(call, 0, Known::IntoSignalTrait, None);
    let found = needless_computed::check_expr(&c.hir, erased).unwrap();
    assert_eq!(c.fixed(&found), "let t = s; width(t)");
    assert_eq!(applicability(&found), Applicability::MaybeIncorrect);
}

#[test]
fn reading_a_signal_needs_no_erasure() {
    let mut c = Code::new("s.computed().get()");
    let (erased, _) = erased_argument(&mut c);
    let int = c.ty(TyKind::Int { bits: Some(32) });
    let home = c.def(Known::SignalTrait);
    let call = c.method(Known::TextFn, "get", erased, vec![], c.src, int);
    c.hir.nodes[call].call_sig = Some(CallSig { ref_self: true, home: Home::Trait(home), output: int });
    let found = needless_computed::check_expr(&c.hir, erased).unwrap();
    assert_eq!(c.fixed(&found), "s.get()");
    // The method only borrows the receiver, so that a place stays as it is.
    c.hir.nodes[erased - 1].place = true;
    let found = needless_computed::check_expr(&c.hir, erased).unwrap();
    assert_eq!(c.fixed(&found), "s.get()");
}

fn cast(c: &mut Code) -> usize {
    let int = c.ty(TyKind::Int { bits: Some(32) });
    c.hir.types[int].impls.push(Impl { trait_: Trait::IntoF32, args: vec![] });
    let f32_ty = c.ty(TyKind::Float { bits: 32 });
    let signal = c.signal(TyKind::Param, int);
    let s = c.path("s", signal);
    let pat = c.binding("v", int);
    let operand = c.local("v", pat, int);
    let body = c.node(Kind::Cast { operand }, "v as f32", f32_ty);
    let closure = c.closure(pat, body, "|v| v as f32");
    c.method(Known::SignalMap, "map", s, vec![closure], "s.map(|v| v as f32)", 0)
}

#[test]
fn casts_for_a_float_parameter_are_dropped() {
    let mut c = Code::new("width(s.map(|v| v as f32))");
    let mapped = cast(&mut c);
    let call = c.call(Known::TextFn, "width", vec![mapped], c.src, 0);
    assert!(needless_signal_cast::check_expr(&c.hir, mapped).is_none());
    c.bound(call, 0, Known::IntoSignalF32, None);
    let found = needless_signal_cast::check_expr(&c.hir, mapped).unwrap();
    assert_eq!(found.lint, Lint::NeedlessSignalCast);
    assert_eq!(c.fixed(&found), "width(s)");
    let s = match &c.hir.nodes[mapped].kind {
        Kind::MethodCall { receiver, .. } => *receiver,
        _ => unreachable!(),
    };
    c.hir.nodes[s].place = true;
    let found = needless_signal_cast::check_expr(&c.hir, mapped).unwrap();
    assert_eq!(c.fixed(&found), "width(s.clone())");
}

#[test]
fn casts_that_nothing_reads_are_left_alone() {
    let mut c = Code::new("let w = s.map(|v| v as f32); width(w)");
    let mapped = cast(&mut c);
    let pat = c.binding("w", 0);
    let stmt = c.let_stmt(pat, mapped, "let w = s.map(|v| v as f32);");
    assert!(needless_signal_cast::check_expr(&c.hir, mapped).is_none());
    let read = c.local("w", pat, 0);
    let call = c.call(Known::TextFn, "width", vec![read], "width(w)", 0);
    c.bound(call, 0, Known::IntoSignalF32, None);
    c.block(vec![stmt], Some(call), c.src);
    let found = needless_signal_cast::check_expr(&c.hir, mapped).unwrap();
    assert_eq!(c.fixed(&found), "let w = s; width(w)");
}

#[test]
fn mapped_strings_are_text_slots() {
    let mut c = Code::new("text(s.map(|v| v.to_string()))");
    let int = c.ty(TyKind::Int { bits: Some(32) });
    let string = c.adt(Known::StringTy, vec![]);
    let signal = c.signal(TyKind::Param, int);
    let s = c.local("s", 900, signal);
    let pat = c.binding("v", int);
    let v = c.local("v", pat, int);
    let body = c.method(Known::ToString, "to_string", v, vec![], "v.to_string()", string);
    let closure = c.closure(pat, body, "|v| v.to_string()");
    let mapped = c.method(Known::SignalMap, "map", s, vec![closure], "s.map(|v| v.to_string())", 0);
    let call = c.call(Known::TextFn, "text", vec![mapped], c.src, 0);
    c.bound(call, 0, Known::IntoText, None);
    let text_macro = c.def(Known::TextMacro);
    let found = manual_text_map::check_expr(&c.hir, &module(text_macro), Some(text_macro), mapped).unwrap();
    assert_eq!(found.lint, Lint::ManualTextMap);
    assert_eq!(c.fixed(&found), "text!(\"{s}\")");
}

#[test]
fn mapped_formats_keep_their_template() {
    let mut c = Code::new("text(s.map(|v| format!(\"{} of {{all}}\", v)))");
    let int = c.ty(TyKind::Int { bits: Some(32) });
    let string = c.adt(Known::StringTy, vec![]);
    let signal = c.signal(TyKind::Param, int);
    let s = c.local("s", 900, signal);
    let pat = c.binding("v", int);
    let v = c.local("v", pat, int);
    let options = FormatOptions {
        width: None,
        precision: None,
        alignment: None,
        fill: None,
        sign: None,
        alternate: false,
        zero_pad: false,
        debug_hex: None,
    };
    let format = c.hir.add_format(FormatArgs {
        args: vec![FormatArg { kind: ArgKind::Normal, expr: Some(v) }],
        template: vec![
            FormatPiece::Placeholder { index: Some(0), options, trait_: FormatTrait::Display },
            FormatPiece::Literal(" of {all}".to_string()),
        ],
    });
    let body = c.call(Known::ToString, "format", vec![v], "format!(\"{} of {{all}}\", v)", string);
    c.hir.nodes[body].mac = Some(MacroCall { is_format: true, is_text: false, expn: 3 });
    c.hir.nodes[body].format = Some(format);
    c.expand(body);
    let closure = c.closure(pat, body, "|v| format!(\"{} of {{all}}\", v)");
    let mapped = c.method(
        Known::SignalMap,
        "map",
        s,
        vec![closure],
        "s.map(|v| format!(\"{} of {{all}}\", v))",
        0,
    );
    let call = c.call(Known::TextFn, "text", vec![mapped], c.src, 0);
    c.bound(call, 0, Known::IntoText, None);
    let text_macro = c.def(Known::TextMacro);
    let found = manual_text_map::check_expr(&c.hir, &module(text_macro), Some(text_macro), mapped).unwrap();
    assert_eq!(c.fixed(&found), "text!(\"{s} of {{all}}\")");
}

#[test]
fn maps_without_a_text_position_are_left_alone() {
    let mut c = Code::new("width(s.map(|v| v.to_string()))");
    let int = c.ty(TyKind::Int { bits: Some(32) });
    let string = c.adt(Known::StringTy, vec![]);
    let signal = c.signal(TyKind::Param, int);
    let s = c.local("s", 900, signal);
    let pat = c.binding("v", int);
    let v = c.local("v", pat, int);
    let body = c.method(Known::ToString, "to_string", v, vec![], "v.to_string()", string);
    let closure = c.closure(pat, body, "|v| v.to_string()");
    let mapped = c.method(Known::SignalMap, "map", s, vec![closure], "s.map(|v| v.to_string())", 0);
    c.call(Known::When, "width", vec![mapped], c.src, 0);
    let text_macro = c.def(Known::TextMacro);
    assert!(manual_text_map::check_expr(&c.hir, &module(text_macro), Some(text_macro), mapped).is_none());
    assert!(manual_string_signal::check_expr(&c.hir, Some(text_macro), mapped).is_none());
}

#[test]
fn strings_built_in_a_map_are_reported() {
    let mut c = Code::new("field(s.map(|v| prefix + v))");
    let string = c.adt(Known::StringTy, vec![]);
    let signal = c.signal(TyKind::Param, string);
    let s = c.local("s", 900, signal);
    let pat = c.binding("v", string);
    let lhs = c.path("prefix", string);
    let rhs = c.local("v", pat, string);
    let body = c.node(Kind::Binary { op: BinOp::Add, lhs, rhs }, "prefix + v", string);
    let closure = c.closure(pat, body, "|v| prefix + v");
    let mapped = c.method(Known::SignalMap, "map", s, vec![closure], "s.map(|v| prefix + v)", 0);
    c.call(Known::When, "field", vec![mapped], c.src, 0);
    let found = manual_string_signal::check_expr(&c.hir, None, mapped).unwrap();
    assert_eq!(found.lint, Lint::ManualStringSignal);
    assert!(found.remarks.iter().any(|r| matches!(r, Remark::Label(span, _) if *span == c.at("prefix + v"))));
    c.expand(mapped);
    assert!(manual_string_signal::check_expr(&c.hir, None, mapped).is_none());
}
