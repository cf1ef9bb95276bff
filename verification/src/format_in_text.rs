//! `format_in_text`: `format!` prose reaching a text position renders as
//! `Text::verbatim`, untranslatable and invisible to the plural machinery; and
//! `plural_bypass`, the case that also splices an integer into the prose.

use crate::diagnostics;
use crate::diagnostics::{Applicability, Diagnostic, DiagnosticView, RemarkView};
use crate::format_args;
use crate::format_args::{FormatArg, FormatArgs, FormatPiece};
use crate::hir;
use crate::hir::{Hir, Ident, Kind, Res, Span, TyKind};
use crate::known::Known;
use crate::lint::Lint;
use crate::text;
use vstd::prelude::*;

verus! {

/// The name can stand for a slot.
pub open spec fn names_slot(ident: Ident) -> bool {
    &&& ident.usable
    &&& ident.name@.len() > 0
    &&& text::alphabetic(ident.name@[0]) || ident.name@[0] == '_'
}

/// Whether the name can stand for a `text!` slot: a plain identifier, not a
/// keyword (`self`), and not a tuple-index field name (`0`), which `text!` could
/// not bind.
pub fn slot_ident(ident: &Ident) -> (r: bool)
    ensures
        r == names_slot(*ident),
{
    if !ident.usable {
        return false;
    }
    let cs: Vec<char> = text::chars(ident.name.as_str());
    cs.len() > 0 && (text::is_alphabetic(cs[0]) || cs[0] == '_')
}

/// The expression is a local, or a field projection of one, by slot names.
pub open spec fn slot_path(hir: Hir, n: usize) -> bool
    decreases n,
{
    match hir.kind(n) {
        Kind::Path { plain, segments, res } => plain && res is Local && segments@.len() == 1
            && names_slot(segments@[0]),
        Kind::Field { base, name } => names_slot(name) && base < n && slot_path(hir, base),
        _ => false,
    }
}

/// Whether the expression is `a` or `a.b.c`: a local, or a field projection of
/// one, every step of which can name a `text!` slot. The rewrite captures or
/// aliases it verbatim; anything more complex keeps the help without a
/// suggestion.
pub fn simple_path(hir: &Hir, n: usize) -> (r: bool)
    requires
        hir.wf(),
        hir.has(n),
    ensures
        r == slot_path(*hir, n),
    decreases n,
{
    proof {
        assert(hir.node_wf(n));
    }
    match &hir.nodes[n].kind {
        Kind::Path { plain, segments, res: Res::Local(_) } => *plain && segments.len() == 1
            && slot_ident(&segments[0]),
        Kind::Field { base, name } => slot_ident(name) && simple_path(hir, *base),
        _ => false,
    }
}

/// The call carries its first operand on as text.
pub open spec fn carries(hir: Hir, n: usize) -> bool {
    ||| hir.resolves_item(n, Known::ToString)
    ||| hir.resolves_item(n, Known::TextVerbatim)
    ||| (hir.resolves_item(n, Known::From) || hir.resolves_item(n, Known::Into)) && hir.stringy(
        hir.node(n).ty,
    )
}

fn is_carrier(hir: &Hir, n: usize) -> (r: bool)
    requires
        hir.wf(),
        hir.has(n),
    ensures
        r == carries(*hir, n),
{
    proof {
        assert(hir.node_wf(n));
    }
    hir.resolves_of(n, Known::ToString) || hir.resolves_of(n, Known::TextVerbatim) || ((
    hir.resolves_of(n, Known::From) || hir.resolves_of(n, Known::Into)) && hir.is_string_ty(
        hir.nodes[n].ty,
    ))
}

/// The `format!` call that an argument comes down to, by its arguments.
pub open spec fn format_of(hir: Hir, arg: usize) -> Option<usize>
    decreases arg,
{
    let n = hir.undropped(arg);
    match hir.node(n).mac {
        Some(mac) => if mac.is_format {
            hir.node(n).format
        } else {
            None
        },
        None => if carries(hir, n) {
            match hir.first_operand(n) {
                Some(inner) => if inner < arg {
                    format_of(hir, inner)
                } else {
                    None
                },
                None => None,
            }
        } else {
            None
        },
    }
}

/// The arguments of the `format!(..)` that the argument is, after peeling
/// drop-temps and the value carriers (`.to_string()`, `String::from`,
/// `Str::from`, `.into()`, `Text::verbatim(..)`). Nothing when the outermost
/// macro producing the expression is anything else: `text!` itself expands
/// through `format!`, and a macro that generates a `format!` is not the user's
/// prose.
pub fn format_call(hir: &Hir, arg: usize) -> (r: Option<usize>)
    requires
        hir.wf(),
        hir.has(arg),
    ensures
        r == format_of(*hir, arg),
        r matches Some(f) ==> f < hir.formats.len() && forall|i: int|
            0 <= i < hir.formats@[f as int].args@.len() ==> hir::opt_below(
                (#[trigger] hir.formats@[f as int].args@[i]).expr,
                hir.nodes@.len() as int,
            ),
    decreases arg,
{
    let n: usize = hir.peel_drop_temps(arg);
    proof {
        assert(hir.node_wf(n));
    }
    match hir.nodes[n].mac {
        Some(mac) => {
            if !mac.is_format {
                return None;
            }
            let found: Option<usize> = hir.nodes[n].format;
            proof {
                if let Some(f) = found {
                    assert forall|i: int|
                        0 <= i < hir.formats@[f as int].args@.len() implies hir::opt_below(
                        (#[trigger] hir.formats@[f as int].args@[i]).expr,
                        hir.nodes@.len() as int,
                    ) by {
                        assert(hir::opt_below(
                            hir.formats@[f as int].args@[i].expr,
                            n as int,
                        ));
                    }
                }
            }
            found
        },
        None => {
            if !is_carrier(hir, n) {
                return None;
            }
            match hir.first_arg(n) {
                Some(inner) => format_call(hir, inner),
                None => None,
            }
        },
    }
}

/// A text holds a letter.
pub open spec fn has_letter(s: Seq<char>) -> bool {
    exists|i: int| 0 <= i < s.len() && text::alphabetic(#[trigger] s[i])
}

fn contains_letter(s: &str) -> (r: bool)
    ensures
        r == has_letter(s@),
{
    let cs: Vec<char> = text::chars(s);
    let mut i: usize = 0;
    while i < cs.len()
        invariant
            i <= cs.len(),
            cs@ == s@,
            forall|k: int| 0 <= k < i ==> !text::alphabetic(#[trigger] cs@[k]),
        decreases cs.len() - i,
    {
        if text::is_alphabetic(cs[i]) {
            assert(text::alphabetic(s@[i as int]));
            return true;
        }
        i = i + 1;
    }
    false
}

/// The piece is text with a letter.
pub open spec fn lettered(piece: FormatPiece) -> bool {
    match piece {
        FormatPiece::Literal(text) => has_letter(text@),
        _ => false,
    }
}

/// The template holds prose.
pub open spec fn prose(template: Seq<FormatPiece>) -> bool {
    exists|i: int| 0 <= i < template.len() && lettered(#[trigger] template[i])
}

/// Whether the template holds prose, not a data pass-through: at least one
/// literal letter (`format!("{}", id)` stays silent).
pub fn is_prose(template: &Vec<FormatPiece>) -> (r: bool)
    ensures
        r == prose(template@),
{
    let mut i: usize = 0;
    while i < template.len()
        invariant
            i <= template.len(),
            forall|k: int| 0 <= k < i ==> !lettered(#[trigger] template@[k]),
        decreases template.len() - i,
    {
        let found: bool = match &template[i] {
            FormatPiece::Literal(text) => contains_letter(text.as_str()),
            _ => false,
        };
        if found {
            assert(lettered(template@[i as int]));
            return true;
        }
        i = i + 1;
    }
    false
}

/// The expression is an integer, references aside.
pub open spec fn integral(hir: Hir, n: usize) -> bool {
    let kind = hir.ty(hir.referent(hir.node(n).ty)).kind;
    kind is Int || kind is Uint
}

fn is_integral(hir: &Hir, n: usize) -> (r: bool)
    requires
        hir.wf(),
        hir.has(n),
    ensures
        r == integral(*hir, n),
{
    proof {
        assert(hir.node_wf(n));
    }
    let t: usize = hir.peel_refs(hir.nodes[n].ty);
    match &hir.types[t].kind {
        TyKind::Int { .. } | TyKind::Uint { .. } => true,
        _ => false,
    }
}

/// Some argument is an integer.
pub open spec fn any_integral(hir: Hir, args: Seq<FormatArg>) -> bool {
    exists|i: int|
        0 <= i < args.len() && ((#[trigger] args[i]).expr matches Some(n) && integral(hir, n))
}

/// Every argument is a local or a field of one.
pub open spec fn all_simple(hir: Hir, args: Seq<FormatArg>) -> bool {
    forall|i: int|
        0 <= i < args.len() ==> ((#[trigger] args[i]).expr matches Some(n) && slot_path(hir, n))
}

/// Whether some argument is an integer, and whether every one is a simple path.
fn classify(hir: &Hir, args: &Vec<FormatArg>) -> (r: (bool, bool))
    requires
        hir.wf(),
        forall|i: int|
            0 <= i < args@.len() ==> hir::opt_below(
                (#[trigger] args@[i]).expr,
                hir.nodes@.len() as int,
            ),
    ensures
        r.0 == any_integral(*hir, args@),
        r.1 == all_simple(*hir, args@),
{
    let mut whole: bool = false;
    let mut simple: bool = true;
    let mut i: usize = 0;
    while i < args.len()
        invariant
            i <= args.len(),
            hir.wf(),
            forall|k: int|
                0 <= k < args@.len() ==> hir::opt_below(
                    (#[trigger] args@[k]).expr,
                    hir.nodes@.len() as int,
                ),
            whole == (exists|k: int|
                0 <= k < i && ((#[trigger] args@[k]).expr matches Some(n) && integral(*hir, n))),
            simple == (forall|k: int|
                0 <= k < i ==> ((#[trigger] args@[k]).expr matches Some(n) && slot_path(
                    *hir,
                    n,
                ))),
        decreases args.len() - i,
    {
        match args[i].expr {
            Some(n) => {
                if is_integral(hir, n) {
                    whole = true;
                    assert(args@[i as int].expr == Some(n));
                }
                if !simple_path(hir, n) {
                    simple = false;
                    assert(args@[i as int].expr == Some(n));
                }
            },
            None => {
                simple = false;
                assert(args@[i as int].expr is None);
            },
        }
        i = i + 1;
    }
    (whole, simple)
}

/// What is said of `format!` prose in a text position.
pub open spec fn prose_findings(hir: Hir, span: Span, format: FormatArgs) -> Seq<DiagnosticView> {
    let code = if all_simple(hir, format.args@) {
        format_args::text_rewrite(hir, format)
    } else {
        None
    };
    let found = DiagnosticView::bare(
        Lint::FormatInText,
        span,
        "`format!` prose in a text position is untranslatable verbatim text"@,
    ).with(
        match code {
            Some(code) => RemarkView::Suggestion {
                label: "use `text!` so the sentence is one catalog key with slots"@,
                span,
                code,
                applicability: Applicability::MaybeIncorrect,
            },
            None => RemarkView::Help(
                "use `text!` so the sentence is one catalog key with slots"@,
            ),
        },
    );
    if any_integral(hir, format.args@) {
        seq![
            found,
            DiagnosticView::with_help(
                Lint::PluralBypass,
                span,
                "an integer formatted into prose bypasses the plural categories"@,
                "`{#count}` in a `text!` key is the only channel that yields correct plural forms per locale"@,
            ),
        ]
    } else {
        seq![found]
    }
}

/// What is said of operand `i` of a call.
pub open spec fn arg_findings(hir: Hir, call: usize, i: int) -> Seq<DiagnosticView> {
    let arg = hir.operands(call)[i];
    if !hir.bounded(call, i, seq![Known::IntoText, Known::IntoLabel]) {
        seq![]
    } else {
        match format_of(hir, arg) {
            Some(f) => if prose(hir.formats@[f as int].template@) {
                prose_findings(hir, hir.node(arg).callsite_span, hir.formats@[f as int])
            } else {
                seq![]
            },
            None => seq![],
        }
    }
}

/// What is said of the first `n` operands of a call.
pub open spec fn findings_upto(hir: Hir, call: usize, n: int) -> Seq<DiagnosticView>
    decreases n,
{
    if n <= 0 {
        seq![]
    } else {
        findings_upto(hir, call, n - 1) + arg_findings(hir, call, n - 1)
    }
}

/// What is said of an expression.
pub open spec fn findings(hir: Hir, n: usize) -> Seq<DiagnosticView> {
    if hir.is_call(n) {
        findings_upto(hir, n, hir.operands(n).len() as int)
    } else {
        seq![]
    }
}

fn push_prose(hir: &Hir, span: Span, format: &FormatArgs, out: &mut Vec<Diagnostic>)
    requires
        hir.wf(),
        forall|i: int|
            0 <= i < format.args@.len() ==> hir::opt_below(
                (#[trigger] format.args@[i]).expr,
                hir.nodes@.len() as int,
            ),
    ensures
        diagnostics::found_all(final(out)@) == diagnostics::found_all(old(out)@)
            + prose_findings(*hir, span, *format),
{
    let ghost before = diagnostics::found_all(out@);
    let (whole, simple) = classify(hir, &format.args);
    let code: Option<String> = if simple {
        format_args::text_macro_suggestion(hir, format)
    } else {
        None
    };
    let mut found: Diagnostic = Diagnostic::bare(
        Lint::FormatInText,
        span,
        "`format!` prose in a text position is untranslatable verbatim text",
    );
    match code {
        Some(code) => {
            found.span_suggestion(
                span,
                "use `text!` so the sentence is one catalog key with slots",
                code,
                Applicability::MaybeIncorrect,
            );
        },
        None => {
            found.help("use `text!` so the sentence is one catalog key with slots".to_owned());
        },
    }
    let ghost first = found@;
    diagnostics::push_found(out, Some(found));
    if whole {
        let plural: Diagnostic = Diagnostic::with_help(
            Lint::PluralBypass,
            span,
            "an integer formatted into prose bypasses the plural categories",
            "`{#count}` in a `text!` key is the only channel that yields correct plural forms per locale".to_owned(),
        );
        let ghost second = plural@;
        diagnostics::push_found(out, Some(plural));
        proof {
            assert(before + seq![first] + seq![second] =~= before + seq![first, second]);
        }
    }
}

/// Flags a `format!(..)` whose template holds prose and whose result flows into
/// an `IntoText` or `IntoLabel` parameter, directly or through `.to_string()`,
/// `String::from`, `Str::from`, `.into()`, or `Text::verbatim(..)`; and once more
/// where it also splices an integer into the prose.
pub fn check_expr(hir: &Hir, n: usize) -> (r: Vec<Diagnostic>)
    requires
        hir.wf(),
        hir.has(n),
    ensures
        diagnostics::found_all(r@) == findings(*hir, n),
{
    let mut out: Vec<Diagnostic> = Vec::new();
    proof {
        assert(diagnostics::found_all(out@) =~= seq![]);
    }
    if !hir.call(n) {
        return out;
    }
    let args: Vec<usize> = hir.call_args(n);
    let mut i: usize = 0;
    while i < args.len()
        invariant
            i <= args.len(),
            hir.wf(),
            hir.has(n),
            args@ == hir.operands(n),
            hir::all_below(args@, n as int),
            diagnostics::found_all(out@) == findings_upto(*hir, n, i as int),
        decreases args.len() - i,
    {
        let ghost before = diagnostics::found_all(out@);
        let arg: usize = args[i];
        proof {
            assert(before =~= before + seq![]);
        }
        if hir.arg_has_bound(n, i, &[Known::IntoText, Known::IntoLabel]) {
            if let Some(f) = format_call(hir, arg) {
                if is_prose(&hir.formats[f].template) {
                    push_prose(hir, hir.nodes[arg].callsite_span, &hir.formats[f], &mut out);
                }
            }
        }
        i = i + 1;
    }
    out
}

/// A formatted sentence is reported as such, and once more for its plural exactly
/// where one of its arguments is an integer, references aside.
pub proof fn integers_in_prose_are_reported(hir: Hir, span: Span, format: FormatArgs)
    ensures
        ({
            let found = prose_findings(hir, span, format);
            let counts = exists|i: int|
                0 <= i < format.args@.len() && ((#[trigger] format.args@[i]).expr matches Some(n) && (
                hir.ty(hir.referent(hir.node(n).ty)).kind is Int || hir.ty(
                    hir.referent(hir.node(n).ty),
                ).kind is Uint));
            &&& found.len() == (if counts {
                2int
            } else {
                1
            })
            &&& found[0].lint == Lint::FormatInText
            &&& counts ==> found[1].lint == Lint::PluralBypass
            &&& forall|i: int| 0 <= i < found.len() ==> (#[trigger] found[i]).span == span
        }),
{
    if exists|i: int|
        0 <= i < format.args@.len() && ((#[trigger] format.args@[i]).expr matches Some(n) && (hir.ty(
            hir.referent(hir.node(n).ty),
        ).kind is Int || hir.ty(hir.referent(hir.node(n).ty)).kind is Uint)) {
        let i = choose|i: int|
            0 <= i < format.args@.len() && ((#[trigger] format.args@[i]).expr matches Some(n) && (
            hir.ty(hir.referent(hir.node(n).ty)).kind is Int || hir.ty(
                hir.referent(hir.node(n).ty),
            ).kind is Uint));
        assert(integral(hir, format.args@[i].expr->0));
        assert(any_integral(hir, format.args@));
    }
    if any_integral(hir, format.args@) {
        let i = choose|i: int|
            0 <= i < format.args@.len() && ((#[trigger] format.args@[i]).expr matches Some(n)
                && integral(hir, n));
        assert(format.args@[i].expr is Some);
    }
}

/// Only a text position is looked at, and there only a template with a letter
/// outside its placeholders; every such one is reported.
pub proof fn prose_is_reported(hir: Hir, call: usize, i: int, f: usize, k: int, c: int)
    requires
        format_of(hir, hir.operands(call)[i]) == Some(f),
        0 <= k < hir.formats@[f as int].template@.len(),
        hir.formats@[f as int].template@[k] matches FormatPiece::Literal(text) && 0 <= c
            < text@.len() && text::alphabetic(text@[c]),
    ensures
        arg_findings(hir, call, i).len() > 0 <==> hir.bounded(
            call,
            i,
            seq![Known::IntoText, Known::IntoLabel],
        ),
{
    assert(lettered(hir.formats@[f as int].template@[k]));
    assert(prose(hir.formats@[f as int].template@));
}

proof fn lemma_findings_upto(hir: Hir, call: usize, n: int, i: int, k: int)
    requires
        0 <= i < n,
        0 <= k < arg_findings(hir, call, i).len(),
    ensures
        findings_upto(hir, call, n).contains(arg_findings(hir, call, i)[k]),
    decreases n,
{
    let before = findings_upto(hir, call, n - 1);
    let here = arg_findings(hir, call, n - 1);
    let found = arg_findings(hir, call, i)[k];
    if i < n - 1 {
        lemma_findings_upto(hir, call, n - 1, i, k);
        let m = choose|m: int| 0 <= m < before.len() && before[m] == found;
        assert((before + here)[m] == found);
    } else {
        assert((before + here)[before.len() + k] == found);
    }
}

/// What is found in any one argument of a call is reported for the call.
pub proof fn every_argument_is_looked_at(hir: Hir, n: usize, i: int, k: int)
    requires
        hir.is_call(n),
        0 <= i < hir.operands(n).len(),
        0 <= k < arg_findings(hir, n, i).len(),
    ensures
        findings(hir, n).contains(arg_findings(hir, n, i)[k]),
{
    lemma_findings_upto(hir, n, hir.operands(n).len() as int, i, k);
}

} // verus!
