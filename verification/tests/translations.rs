#![allow(dead_code)]

use waterui_lints::diagnostics::{Applicability, Diagnostic, Remark};
use waterui_lints::format_args::{
    text_macro_suggestion, ArgKind, FormatArg, FormatArgs, FormatOptions, FormatPiece, FormatTrait,
};
use waterui_lints::format_in_text;
use waterui_lints::hir::{
    BinOp, Bound, Def, DefKind, Hir, Ident, Impl, KeySpace, Kind, Lit, MacroCall, Node, Res, Span,
    Sugg, TextKey, Trait, Ty, TyKind,
};
use waterui_lints::known::Known;
use waterui_lints::lint::{register_lints, Group, Level, Lint};
use waterui_lints::localized_concat;
use waterui_lints::long_text_key::{count_words, LongTextKey};
use waterui_lints::missing_translation::{read_catalog, Catalog, MissingTranslation};

struct Code {
    hir: Hir,
    src: &'static str,
}

impl Code {
    fn new(src: &'static str) -> Code {
        let mut hir = Hir::new();
        hir.add_type(Ty::new(TyKind::Tuple { parts: vec![] })).unwrap();
        Code { hir, src }
    }

    fn at(&self, part: &str) -> Span {
        let lo = self.src.find(part).expect(part);
        Span { lo: lo as u32, hi: (lo + part.len()) as u32, ctxt: 0 }
    }

    fn def(&mut self, item: Known) -> usize {
        self.named(item.text())
    }

    fn named(&mut self, path: &str) -> usize {
        self.hir.add_def(Def { path: path.split("::").map(str::to_string).collect(), ctor_of: None })
    }

    fn ty(&mut self, kind: TyKind) -> usize {
        self.hir.add_type(Ty::new(kind)).unwrap()
    }

    fn adt(&mut self, item: Known, args: Vec<usize>) -> usize {
        let def = self.def(item);
        self.ty(TyKind::Adt { def, args })
    }

    fn signal(&mut self, kind: TyKind, output: usize) -> usize {
        let t = self.ty(kind);
        self.hir.types[t].impls.push(Impl { trait_: Trait::Signal, args: vec![] });
        self.hir.types[t].output = Some(output);
        t
    }

    fn node(&mut self, kind: Kind, part: &str, ty: usize) -> usize {
        let mut node = Node::new(kind, self.at(part), ty);
        node.snippet = Some(part.to_string());
        node.sugg = Some(Sugg { plain: part.to_string(), operand: part.to_string() });
        node.callsite = Some(part.to_string());
        node.indent = Some(String::new());
        self.hir.add_node(node).expect(part)
    }

    fn path(&mut self, part: &str, ty: usize) -> usize {
        let segments = part.split("::").map(|name| self.ident(name)).collect();
        self.node(Kind::Path { plain: true, segments, res: Res::Other }, part, ty)
    }

    fn local(&mut self, part: &str, id: usize, ty: usize) -> usize {
        let segments = vec![self.ident(part)];
        let n = self.node(Kind::Path { plain: true, segments, res: Res::Local(id) }, part, ty);
        self.hir.nodes[n].place = true;
        n
    }

    fn binding(&mut self, part: &str, ty: usize) -> usize {
        let id = self.hir.nodes.len();
        let name = self.ident(part);
        self.node(Kind::Binding { name, id, sub: None }, part, ty)
    }

    fn lit(&mut self, lit: Lit, part: &str, ty: usize) -> usize {
        self.node(Kind::Lit { lit }, part, ty)
    }

    fn ident(&self, name: &str) -> Ident {
        let lo = self.src.find(name).unwrap_or(0);
        let span = Span { lo: lo as u32, hi: (lo + name.len()) as u32, ctxt: 0 };
        Ident { name: name.to_string(), written: name.to_string(), usable: true, span }
    }

    fn call(&mut self, item: Known, func: &str, args: Vec<usize>, part: &str, ty: usize) -> usize {
        let def = self.def(item);
        let segments = func.split("::").map(|name| self.ident(name)).collect();
        let res = Res::Def { def, kind: DefKind::AssocFn };
        let callee = self.node(Kind::Path { plain: true, segments, res }, func, 0);
        let n = self.node(Kind::Call { func: callee, args }, part, ty);
        self.hir.nodes[n].callee = Some(def);
        self.hir.nodes[n].item = Some(def);
        n
    }

    fn method(
        &mut self,
        item: Known,
        name: &str,
        receiver: usize,
        args: Vec<usize>,
        part: &str,
        ty: usize,
    ) -> usize {
        let def = self.def(item);
        let name = self.ident(name);
        let n = self.node(Kind::MethodCall { name, receiver, args }, part, ty);
        self.hir.nodes[n].callee = Some(def);
        self.hir.nodes[n].item = Some(def);
        n
    }

    fn bound(&mut self, n: usize, place: usize, item: Known, arg: Option<usize>) {
        let def = self.def(item);
        let count = match &self.hir.nodes[n].kind {
            Kind::Call { args, .. } => args.len(),
            Kind::MethodCall { args, .. } => args.len() + 1,
            _ => 0,
        };
        let bounds = self.hir.nodes[n].bounds.get_or_insert_with(|| (0..count).map(|_| vec![]).collect());
        bounds[place].push(Bound { def, arg });
    }

    fn block(&mut self, stmts: Vec<usize>, tail: Option<usize>, part: &str) -> usize {
        let block = self.node(Kind::Block { stmts, tail }, part, 0);
        let ty = tail.map_or(0, |tail| self.hir.nodes[tail].ty);
        self.node(Kind::BlockExpr { block }, part, ty)
    }

    fn let_stmt(&mut self, pat: usize, init: usize, part: &str) -> usize {
        let local = self.node(Kind::LetStmt { pat, ty: None, init: Some(init), els: None }, part, 0);
        self.node(Kind::LetDecl { local }, part, 0)
    }

    fn closure(&mut self, pat: usize, body: usize, part: &str) -> usize {
        let written = self.src[self.hir.nodes[pat].span.lo as usize..self.hir.nodes[pat].span.hi as usize].to_string();
        let param = self.node(Kind::Param { pat }, &written, 0);
        self.node(Kind::Closure { params: vec![param], body, by_move: false }, part, 0)
    }

    fn expand(&mut self, n: usize) {
        self.hir.nodes[n].span.ctxt = 7;
    }

    /// The source once the first suggestion is applied.
    fn fixed(&self, found: &Diagnostic) -> String {
        for remark in &found.remarks {
            let mut parts: Vec<(Span, String)> = match remark {
                Remark::Suggestion { span, code, .. } => vec![(*span, code.clone())],
                Remark::Multipart { parts, .. } => {
                    parts.iter().map(|(span, code)| (*span, code.clone())).collect()
                }
                _ => continue,
            };
            parts.sort_by_key(|(span, _)| span.lo);
            let mut out = String::new();
            let mut from = 0;
            for (span, code) in parts {
                out.push_str(&self.src[from..span.lo as usize]);
                out.push_str(&code);
                from = span.hi as usize;
            }
            return out + &self.src[from..];
        }
        panic!("no suggestion in {found:?}");
    }
}

fn applicability(found: &Diagnostic) -> Applicability {
    for remark in &found.remarks {
        match remark {
            Remark::Suggestion { applicability, .. } | Remark::Multipart { applicability, .. } => {
                return *applicability;
            }
            _ => {}
        }
    }
    panic!("no suggestion in {found:?}");
}

fn helps(found: &Diagnostic) -> Vec<&str> {
    found
        .remarks
        .iter()
        .filter_map(|remark| match remark {
            Remark::Help(text) | Remark::Note(text) => Some(text.as_str()),
            _ => None,
        })
        .collect()
}

#[test]
fn catalogs_are_read_from_toml() {
    let catalog = read_catalog("en.toml", "\"Hi {#n}\" = \"a\"\nbye = \"b\"\n[table]\nx = 1\n").unwrap();
    assert_eq!(catalog.file, "en.toml");
    assert!(catalog.contains("Hi {#n}", KeySpace::Catalog));
    assert!(!catalog.contains("Hi {n}", KeySpace::Catalog));
    assert!(catalog.contains("Hi {n}", KeySpace::Format));
    assert!(catalog.contains("table", KeySpace::Catalog));
    assert!(!catalog.contains("x", KeySpace::Catalog));
    assert!(read_catalog("en.toml", "a = ").is_none());
}

/// A pass that has seen keys at these places.
fn keys(list: &[(&str, KeySpace, u32)]) -> MissingTranslation {
    let mut pass = MissingTranslation::new();
    let mut hir = Hir::new();
    let ty = hir.add_type(Ty::new(TyKind::Bool)).unwrap();
    for (text, space, lo) in list {
        let span = Span { lo: *lo, hi: lo + 1, ctxt: 0 };
        let mut node = Node::new(Kind::Lit { lit: Lit::Str(text.to_string()) }, span, ty);
        node.text_key = Some(TextKey { text: text.to_string(), space: *space, span });
        let n = hir.add_node(node).unwrap();
        pass.check_expr(&hir, n);
    }
    pass
}

fn catalog(file: &str, keys: &[&str]) -> Catalog {
    Catalog::new(file, keys.iter().map(|key| key.to_string()).collect())
}

#[test]
fn missing_keys_name_the_files_that_lack_them() {
    let root = Span { lo: 0, hi: 0, ctxt: 0 };
    let pass = keys(&[("b", KeySpace::Catalog, 9), ("a", KeySpace::Catalog, 4), ("b", KeySpace::Catalog, 20)]);
    let catalogs = vec![catalog("fr.toml", &["a"]), catalog("de.toml", &[])];
    let found = pass.check_crate_post(&catalogs, root);
    let said: Vec<(u32, &str)> = found.iter().map(|f| (f.span.lo, f.message.as_str())).collect();
    assert_eq!(
        said,
        [(4, "`a` has no translation in `de.toml`"), (9, "`b` has no translation in `de.toml`, `fr.toml`")]
    );
    assert!(pass.check_crate_post(&vec![], root).is_empty());
}

#[test]
fn unused_keys_are_reported_by_file() {
    let root = Span { lo: 0, hi: 0, ctxt: 0 };
    let pass = keys(&[("{n} rows", KeySpace::Format, 1)]);
    let catalogs = vec![catalog("fr.toml", &["{#n} rows", "old"]), catalog("de.toml", &["{#n} rows", "z", "a"])];
    let found = pass.check_crate_post(&catalogs, root);
    let said: Vec<&str> = found.iter().map(|f| f.message.as_str()).collect();
    assert_eq!(
        said,
        [
            "`a` in `i18n/de.toml` is not used by any `text!` or `Text::localized` in this crate",
            "`z` in `i18n/de.toml` is not used by any `text!` or `Text::localized` in this crate",
            "`old` in `i18n/fr.toml` is not used by any `text!` or `Text::localized` in this crate",
        ]
    );
    assert!(found.iter().all(|f| f.lint == Lint::OrphanTranslation && f.span == root));
    assert!(pass.uses("{#n} rows"));
    assert!(!pass.uses("old"));
}

#[test]
fn long_keys_are_counted_in_words() {
    assert_eq!(count_words("  one two\u{2003}three\n"), 3);
    assert_eq!(count_words(""), 0);
    let span = Span { lo: 3, hi: 9, ctxt: 0 };
    let short = LongTextKey::new(Some(2));
    assert!(short.report(span, "one two").is_none());
    let found = short.report(span, "one two three").unwrap();
    assert_eq!(found.lint, Lint::LongTextKey);
    assert!(found.message.contains('3') && found.message.contains('2'), "{}", found.message);
    let default = LongTextKey::new(None);
    assert!(default.report(span, "a b c d e f g h i j k l").is_none());
    assert!(default.report(span, "a b c d e f g h i j k l m").is_some());
}

fn plain() -> FormatOptions {
    FormatOptions {
        width: None,
        precision: None,
        alignment: None,
        fill: None,
        sign: None,
        alternate: false,
        zero_pad: false,
        debug_hex: None,
    }
}

fn prose(c: &mut Code, arg_ty: usize) -> usize {
    let string = c.adt(Known::StringTy, vec![]);
    let n = c.local("n", 900, arg_ty);
    let format = c.hir.add_format(FormatArgs {
        args: vec![FormatArg { kind: ArgKind::Normal, expr: Some(n) }],
        template: vec![
            FormatPiece::Placeholder { index: Some(0), options: plain(), trait_: FormatTrait::Display },
            FormatPiece::Literal(" rows".to_string()),
        ],
    });
    let body = c.call(Known::ToString, "format", vec![n], "format!(\"{} rows\", n)", string);
    c.hir.nodes[body].mac = Some(MacroCall { is_format: true, is_text: false, expn: 3 });
    c.hir.nodes[body].root_mac = c.hir.nodes[body].mac;
    c.hir.nodes[body].format = Some(format);
    let call = c.call(Known::TextFn, "text", vec![body], c.src, 0);
    c.bound(call, 0, Known::IntoText, None);
    call
}

#[test]
fn prose_belongs_into_text() {
    let mut c = Code::new("text(format!(\"{} rows\", n))");
    let string = c.ty(TyKind::Str);
    let call = prose(&mut c, string);
    let found = format_in_text::check_expr(&c.hir, call);
    assert_eq!(found.len(), 1);
    assert_eq!(found[0].message, "`format!` prose in a text position is untranslatable verbatim text");
    let code = text_macro_suggestion(&c.hir, &c.hir.formats[0]).unwrap();
    assert_eq!(code, "text!(\"{n} rows\")");
    assert_eq!(applicability(&found[0]), Applicability::MaybeIncorrect);
}

#[test]
fn counted_prose_bypasses_the_plural() {
    let mut c = Code::new("text(format!(\"{} rows\", n))");
    let int = c.ty(TyKind::Int { bits: Some(32) });
    let call = prose(&mut c, int);
    let found = format_in_text::check_expr(&c.hir, call);
    let lints: Vec<Lint> = found.iter().map(|f| f.lint).collect();
    assert_eq!(lints, [Lint::FormatInText, Lint::PluralBypass]);
}

#[test]
fn localized_text_is_not_concatenated() {
    let mut c = Code::new("text(\"Dear \") + name + x");
    let text = c.adt(Known::Text, vec![]);
    let str_ty = c.ty(TyKind::Str);
    let by_ref = c.ty(TyKind::Ref { inner: str_ty, mutable: false });
    let dear = c.lit(Lit::Str("Dear ".to_string()), "\"Dear \"", by_ref);
    let lhs = c.call(Known::TextFn, "text", vec![dear], "text(\"Dear \")", text);
    let rhs = c.path("name", text);
    let inner = c.node(Kind::Binary { op: BinOp::Add, lhs, rhs }, "text(\"Dear \") + name", text);
    assert!(localized_concat::check_expr(&c.hir, inner).is_some());
    let x = c.path("x", text);
    let outer = c.node(Kind::Binary { op: BinOp::Add, lhs: inner, rhs: x }, c.src, text);
    assert!(localized_concat::check_expr(&c.hir, inner).is_none());
    let found = localized_concat::check_expr(&c.hir, outer).unwrap();
    assert_eq!(found.message, "concatenating localized text builds an untranslatable sentence");
}

#[test]
fn verbatim_text_may_be_concatenated() {
    let mut c = Code::new("verbatim(s) + name");
    let text = c.adt(Known::Text, vec![]);
    let s = c.path("s", 0);
    let lhs = c.call(Known::TextVerbatim, "verbatim", vec![s], "verbatim(s)", text);
    let rhs = c.path("name", text);
    let sum = c.node(Kind::Binary { op: BinOp::Add, lhs, rhs }, c.src, text);
    assert!(localized_concat::check_expr(&c.hir, sum).is_none());
}

#[test]
fn every_lint_stands_in_its_group() {
    let registry = register_lints();
    assert_eq!(registry.groups.len(), 5);
    for lint in &registry.lints {
        let holders: Vec<Group> = registry
            .groups
            .iter()
            .filter(|(_, members)| members.contains(lint))
            .map(|(group, _)| *group)
            .collect();
        assert_eq!(holders, [lint.group()], "{lint:?}");
    }
    let total: usize = registry.groups.iter().map(|(_, members)| members.len()).sum();
    assert_eq!(total, registry.lints.len());
    assert_eq!(Group::Correctness.default_level(), Level::Deny);
    assert_eq!(Group::Style.default_level(), Level::Warn);
    assert_eq!(Group::Suspicious.default_level(), Level::Warn);
    assert_eq!(Group::Pedantic.default_level(), Level::Allow);
    assert_eq!(Group::Pedantic.name(), "waterui_pedantic");
    assert_eq!(Lint::ManualTextMap.name(), "manual_text_map");
}

#[test]
fn slots_are_named_by_identifiers() {
    let ident = |name: &str, usable: bool| Ident {
        name: name.to_string(),
        written: name.to_string(),
        usable,
        span: Span { lo: 0, hi: 0, ctxt: 0 },
    };
    assert!(format_in_text::slot_ident(&ident("count", true)));
    assert!(format_in_text::slot_ident(&ident("été", true)));
    assert!(format_in_text::slot_ident(&ident("_n", true)));
    assert!(!format_in_text::slot_ident(&ident("0", true)));
    assert!(!format_in_text::slot_ident(&ident("", true)));
    assert!(!format_in_text::slot_ident(&ident("self", false)));
}
