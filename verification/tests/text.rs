use waterui_lints::derive_list::extend_derive_part;
use waterui_lints::diagnostics::{comment_guard, in_build_script_output, Applicability};
use waterui_lints::format_args::{
    between_args_is_comma_name, escape_literal, has_span_from_proc_macro, rebuild, render_options,
    FormatAlignment, FormatCount, FormatDebugHex, FormatOptions, FormatPiece, FormatSign,
    FormatTrait, RebuildError,
};
use waterui_lints::hir::Span;
use waterui_lints::lexer::{self, Tok};
use waterui_lints::macro_call::{parse_s_call, parse_text_call};
use waterui_lints::rows::{order_rows, Row};
use waterui_lints::source_map::{SourceFile, SourceMap};
use waterui_lints::template::{text_pieces, write_macro, Piece, Rendered};
use waterui_lints::text;

fn plain() -> FormatOptions {
    FormatOptions {
        width: None,
        precision: None,
        alignment: None,
        fill: None,
        sign: None,
        alternate: false,
        zero_pad: false,
        debug_hex: None,
    }
}

fn pieces(template: &str) -> Vec<String> {
    text_pieces(template)
        .iter()
        .map(|piece| match piece {
            Piece::Literal(text) => format!("text {text}"),
            Piece::Placeholder { name, spec } => format!("slot {name}{spec}"),
        })
        .collect()
}

fn strings(list: &[&str]) -> Vec<String> {
    list.iter().map(|s| s.to_string()).collect()
}

#[test]
fn decimal_writes_the_digits() {
    assert_eq!(text::to_decimal(0), "0");
    assert_eq!(text::to_decimal(1207), "1207");
    assert_eq!(text::to_decimal(u64::MAX), u64::MAX.to_string());
}

#[test]
fn white_space_is_trimmed_at_both_ends() {
    assert_eq!(text::trim(" \t a b\u{2003}\n"), "a b");
    assert_eq!(text::trim(" \u{a0}"), "");
    for code in 0..0x3100u32 {
        if let Some(c) = char::from_u32(code) {
            assert_eq!(text::is_white_space(c), c.is_whitespace(), "{code:x}");
        }
    }
}

#[test]
fn searching_and_replacing_agree_with_std() {
    for (s, part, with) in [
        ("a{#n}b{#m}", "{#", "{"),
        ("aaaa", "aa", "b"),
        ("", "x", "y"),
        ("été", "t", "tt"),
    ] {
        assert_eq!(text::replace(s, part, with), s.replace(part, with));
        assert_eq!(text::replace_first(s, part, with), s.replacen(part, with, 1));
        assert_eq!(text::split(s, part), s.split(part).map(str::to_string).collect::<Vec<_>>());
        assert_eq!(text::starts_with(s, part), s.starts_with(part));
        assert_eq!(text::strip_suffix(s, part), s.strip_suffix(part).map(str::to_string));
    }
    assert_eq!(text::trim_end_matches("use a::b;;", ';'), "use a::b");
}

#[test]
fn strings_order_as_std_orders_them() {
    for a in ["", "a", "ab", "b", "é", "z"] {
        for b in ["", "a", "ab", "b", "é", "z"] {
            assert_eq!(text::str_le(a, b), a <= b);
            assert_eq!(text::str_eq(a, b), a == b);
        }
    }
}

#[test]
fn joining_puts_the_separator_between() {
    assert_eq!(text::join(&strings(&["a", "b", "c"]), ", "), "a, b, c");
    assert_eq!(text::join(&strings(&[]), ", "), "");
}

#[test]
fn tokens_cover_the_source() {
    let src = "text!(\"é {n}\", n = 1) // done";
    let toks = lexer::tokens(src);
    let kinds: Vec<(Tok, &str)> = toks.iter().map(|t| (t.kind, &src[t.start..t.end])).collect();
    assert_eq!(kinds[0], (Tok::Ident, "text"));
    assert_eq!(kinds[1], (Tok::Bang, "!"));
    assert_eq!(kinds[3], (Tok::Str { terminated: true }, "\"é {n}\""));
    assert!(kinds.iter().all(|(kind, _)| *kind != Tok::Whitespace));
    assert_eq!(kinds[kinds.len() - 1].1, ")");
}

#[test]
fn comments_are_found_outside_literals() {
    assert!(lexer::contains_comment("a /* b */ + c"));
    assert!(lexer::contains_comment("a // b"));
    assert!(!lexer::contains_comment("\"// no\" + 'a'"));
    assert!(!lexer::contains_comment(""));
}

#[test]
fn string_literals_are_cooked() {
    assert_eq!(lexer::unescape_str(r#""a\tb\u{e9}""#), Some("a\tbé".to_string()));
    assert_eq!(lexer::unescape_str(r##"r#"a\t"b"#"##), Some("a\\t\"b".to_string()));
    assert_eq!(lexer::unescape_str(r#""a\qb""#), None);
    assert_eq!(lexer::unescape_str("12"), None);
}

#[test]
fn a_comment_makes_a_fix_less_than_automatic() {
    let source = Some("a /* why */ .b()".to_string());
    assert_eq!(
        comment_guard(&source, Applicability::MachineApplicable),
        Applicability::MaybeIncorrect
    );
    assert_eq!(
        comment_guard(&Some("a.b()".to_string()), Applicability::MachineApplicable),
        Applicability::MachineApplicable
    );
    assert_eq!(
        comment_guard(&source, Applicability::HasPlaceholders),
        Applicability::HasPlaceholders
    );
    assert_eq!(
        comment_guard(&None, Applicability::MachineApplicable),
        Applicability::MachineApplicable
    );
    let a = Applicability::MachineApplicable;
    assert_eq!(a.weaken(false, false), Applicability::MachineApplicable);
    assert_eq!(a.weaken(true, false), Applicability::HasPlaceholders);
    assert_eq!(a.weaken(true, true), Applicability::MaybeIncorrect);
    assert_eq!(Applicability::Unspecified.weaken(true, true), Applicability::Unspecified);
}

#[test]
fn build_script_output_lies_under_the_directory() {
    let out = Some(strings(&["/", "target", "out"]));
    assert!(in_build_script_output(&out, &Some(strings(&["/", "target", "out", "gen.rs"]))));
    assert!(!in_build_script_output(&out, &Some(strings(&["/", "target", "outer", "gen.rs"]))));
    assert!(!in_build_script_output(&out, &None));
    assert!(!in_build_script_output(&None, &Some(strings(&["/", "target", "out", "gen.rs"]))));
}

#[test]
fn templates_split_into_text_and_slots() {
    assert_eq!(pieces("Hi {name}, {n:>3}!"), ["text Hi ", "slot name", "text , ", "slot n:>3", "text !"]);
    assert_eq!(pieces("{{{a}}}"), ["text {", "slot a", "text }"]);
    assert_eq!(pieces("{ n }"), ["slot n"]);
    assert_eq!(pieces("open { end"), ["text open { end"]);
    assert!(pieces("").is_empty());
}

#[test]
fn rebuilt_templates_read_back() {
    let template = vec![
        FormatPiece::Literal("a {b} ".to_string()),
        FormatPiece::Placeholder { index: Some(1), options: plain(), trait_: FormatTrait::Display },
        FormatPiece::Literal(" c".to_string()),
        FormatPiece::Placeholder { index: Some(0), options: plain(), trait_: FormatTrait::Debug },
    ];
    let out = rebuild(&template, &strings(&["x", "y"])).unwrap();
    assert_eq!(out, "a {{b}} {y} c{x:?}");
    assert_eq!(pieces(&out), ["text a {b} ", "slot y", "text  c", "slot x:?"]);
}

#[test]
fn templates_that_cannot_be_rebuilt_say_why() {
    let slot = |index, options| FormatPiece::Placeholder { index, options, trait_: FormatTrait::Display };
    let dynamic = FormatOptions { width: Some(FormatCount::Argument), ..plain() };
    assert_eq!(rebuild(&vec![slot(Some(0), dynamic)], &strings(&["x"])), Err(RebuildError::Dynamic));
    assert_eq!(rebuild(&vec![slot(None, plain())], &strings(&["x"])), Err(RebuildError::Lost));
    assert_eq!(rebuild(&vec![slot(Some(1), plain())], &strings(&["x"])), Err(RebuildError::Lost));
}

#[test]
fn format_options_are_written_in_order() {
    let all = FormatOptions {
        width: Some(FormatCount::Literal(8)),
        precision: Some(FormatCount::Literal(2)),
        alignment: Some(FormatAlignment::Right),
        fill: Some('*'),
        sign: Some(FormatSign::Plus),
        alternate: true,
        zero_pad: true,
        debug_hex: None,
    };
    assert_eq!(render_options(&all, FormatTrait::LowerExp), Some(":*>+#08.2e".to_string()));
    assert_eq!(render_options(&plain(), FormatTrait::Display), Some(String::new()));
    let hex = FormatOptions { debug_hex: Some(FormatDebugHex::Upper), ..plain() };
    assert_eq!(render_options(&hex, FormatTrait::Debug), Some(":X?".to_string()));
    for (trait_, mark) in [
        (FormatTrait::Octal, ":o"),
        (FormatTrait::Pointer, ":p"),
        (FormatTrait::Binary, ":b"),
        (FormatTrait::LowerHex, ":x"),
        (FormatTrait::UpperHex, ":X"),
        (FormatTrait::UpperExp, ":E"),
    ] {
        assert_eq!(render_options(&plain(), trait_), Some(mark.to_string()));
    }
    let dynamic = FormatOptions { precision: Some(FormatCount::Argument), ..plain() };
    assert_eq!(render_options(&dynamic, FormatTrait::Display), None);
}

#[test]
fn arguments_of_a_written_call_are_parted_by_commas() {
    assert!(between_args_is_comma_name(", "));
    assert!(between_args_is_comma_name(" /* x */ , name = "));
    assert!(!between_args_is_comma_name(""));
    assert!(!between_args_is_comma_name(", a, "));
    assert!(!has_span_from_proc_macro(&vec![Some(", ".to_string())]));
    assert!(has_span_from_proc_macro(&vec![Some(", ".to_string()), Some("".to_string())]));
    assert!(has_span_from_proc_macro(&vec![None]));
}

#[test]
fn text_calls_are_parsed() {
    let src = "text!(\"Hi {name}\", @\"ctx\", name = user.name(), n = [1, 2][0])";
    let call = parse_text_call(src).unwrap();
    assert_eq!(call.literal, "Hi {name}");
    let values: Vec<(&str, &str)> =
        call.bindings.iter().map(|(name, at)| (name.as_str(), &src[at.clone()])).collect();
    assert_eq!(values, [("name", "user.name()"), ("n", "[1, 2][0]")]);
    assert!(parse_text_call("text!(name)").is_none());
    assert!(parse_text_call("text").is_none());
}

#[test]
fn s_calls_are_parsed() {
    let call = parse_s_call("s!(\"{} {b}\", f(1, 2), b = 3)").unwrap();
    assert_eq!(call.template, "{} {b}");
    assert_eq!(call.positional, ["f(1, 2)"]);
    assert_eq!(call.named, [("b".to_string(), "3".to_string())]);
    assert!(parse_s_call("s!(x)").is_none());
}

#[test]
fn a_comparison_is_no_named_pair() {
    let call = parse_s_call("s!(\"{}\", a == b)").unwrap();
    assert_eq!(call.template, "{}");
    assert_eq!(call.positional, ["a == b"]);
    assert!(call.named.is_empty());
    let call = parse_s_call("s!(\"{} {c}\", a==b, c = a == b)").unwrap();
    assert_eq!(call.positional, ["a==b"]);
    assert_eq!(call.named, [("c".to_string(), "a == b".to_string())]);
    assert!(parse_text_call("text!(\"x\", a == b)").unwrap().bindings.is_empty());
    let src = "text!(\"{a}\", a = b == c)";
    let call = parse_text_call(src).unwrap();
    assert_eq!(call.bindings.len(), 1);
    assert_eq!(&src[call.bindings[0].1.clone()], "b == c");
}

fn written(template: &str) -> String {
    let mut out = String::new();
    for piece in text_pieces(template) {
        match piece {
            Piece::Literal(text) => escape_literal(&text, &mut out),
            Piece::Placeholder { name, spec } => {
                out.push('{');
                out.push_str(&name);
                out.push_str(&spec);
                out.push('}');
            }
        }
    }
    out
}

#[test]
fn split_templates_read_back() {
    for template in ["{}", "{:?} {a{b} { n :>3}", "{{{a}}} } x", "open { end", ""] {
        assert_eq!(pieces(&written(template)), pieces(template), "{template}");
    }
    assert_eq!(pieces("{}{a{b:c}"), ["slot ", "slot a{b:c"]);
    assert_eq!(pieces("{ {a}"), ["slot {a"]);
    assert_eq!(pieces(&written("{ {a}")), ["text {a}"]);
}

#[test]
fn macro_calls_are_written() {
    assert_eq!(
        write_macro("text!(", "a \"{n}\"", "", &strings(&["n = x"])),
        "text!(\"a \\\"{n}\\\"\", n = x)"
    );
    let rendered = Rendered {
        template: "{n}\n".to_string(),
        bindings: strings(&["n"]),
        all_bare: true,
    };
    assert_eq!(rendered.text_call(), "text!(\"{n}\\n\", n)");
}

#[test]
fn written_calls_are_parsed_again() {
    for template in ["", "{n} of {m:?}", "a \"b\" \\ {{}}\n\t\u{7}é\u{301}'", "// no /* comment"] {
        let rendered =
            Rendered { template: template.to_string(), bindings: vec![], all_bare: true };
        let call = parse_text_call(&rendered.text_call()).unwrap();
        assert_eq!(call.literal, template);
        assert_eq!(call.context, None);
        assert!(call.bindings.is_empty());
    }
}

#[test]
fn rows_come_in_order() {
    let row = |lo, first: &str, index| Row { lo, first: first.to_string(), second: String::new(), index };
    let sorted = order_rows(vec![row(2, "a", 0), row(1, "b", 1), row(1, "a", 2), row(2, "a", 3)]);
    let found: Vec<(u32, &str, usize)> =
        sorted.iter().map(|row| (row.lo, row.first.as_str(), row.index)).collect();
    assert_eq!(found, [(1, "a", 2), (1, "b", 1), (2, "a", 0), (2, "a", 3)]);
}

fn derive(src: &str, item: &str) -> Option<(Span, String)> {
    let map = SourceMap { files: vec![SourceFile { start_pos: 100, src: Some(src.to_string()) }] };
    extend_derive_part(&map, 100 + src.find(item).unwrap() as u32, "Identifiable")
}

fn derived(src: &str, item: &str) -> Option<String> {
    let (span, addition) = derive(src, item)?;
    assert_eq!(span.lo, span.hi);
    let at = (span.lo - 100) as usize;
    Some(format!("{}{}{}", &src[..at], addition, &src[at..]))
}

#[test]
fn derive_lists_are_extended() {
    assert_eq!(
        derived("#[derive(Debug)]\nstruct A;", "struct"),
        Some("#[derive(Debug, Identifiable)]\nstruct A;".to_string())
    );
    assert_eq!(
        derived("#[derive()]\nstruct A;", "struct"),
        Some("#[derive(Identifiable)]\nstruct A;".to_string())
    );
    assert_eq!(
        derived("#[derive(Debug,)]\nstruct A;", "struct"),
        Some("#[derive(Debug, Identifiable)]\nstruct A;".to_string())
    );
    assert_eq!(
        derived("#[derive(Debug)]\n// é\n#[serde(x)]\nstruct A;", "struct"),
        Some("#[derive(Debug, Identifiable)]\n// é\n#[serde(x)]\nstruct A;".to_string())
    );
    assert_eq!(derived("struct A;", "struct"), None);
    assert_eq!(derived("#[derive(Debug)]\nstruct B;\nstruct A;", "struct A"), None);
}
