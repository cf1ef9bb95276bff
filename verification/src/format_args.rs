//! Format strings: escaping, placeholder options, and the `text!` and `s!`
//! invocations read back from their source.

use crate::hir;
use crate::hir::{Hir, Ident, Kind};
use crate::lexer;
use crate::lexer::{Lexeme, Tok};
use crate::signal_map;
use crate::template;
use crate::text;
use vstd::prelude::*;
use vstd::utf8::*;

verus! {

/// A character of a template, written so that it stands for itself.
pub open spec fn escaped_char(c: char) -> Seq<char> {
    if c == '{' {
        seq!['{', '{']
    } else if c == '}' {
        seq!['}', '}']
    } else {
        seq![c]
    }
}

/// A text of a template, written so that it stands for itself: braces double
/// up, the rest is verbatim.
pub open spec fn escaped(text: Seq<char>) -> Seq<char>
    decreases text.len(),
{
    if text.len() == 0 {
        Seq::empty()
    } else {
        escaped(text.drop_last()) + escaped_char(text.last())
    }
}

/// Appends `text` for reuse inside a `text!` literal: braces double up, the
/// rest is verbatim.
pub fn escape_literal(text: &str, out: &mut String)
    ensures
        final(out)@ == old(out)@ + escaped(text@),
{
    let cs: Vec<char> = text::chars(text);
    let mut i: usize = 0;
    let ghost before = out@;
    proof {
        assert(before + escaped(cs@.take(0)) =~= before);
    }
    while i < cs.len()
        invariant
            i <= cs.len(),
            out@ == before + escaped(cs@.take(i as int)),
        decreases cs.len() - i,
    {
        let c: char = cs[i];
        let ghost prior = out@;
        if c == '{' {
            out.push('{');
            out.push('{');
        } else if c == '}' {
            out.push('}');
            out.push('}');
        } else {
            out.push(c);
        }
        proof {
            assert(cs@.take(i + 1).drop_last() =~= cs@.take(i as int));
            assert(out@ =~= prior + escaped_char(c));
            assert(out@ =~= before + escaped(cs@.take(i + 1)));
        }
        i = i + 1;
    }
    proof {
        assert(cs@.take(cs.len() as int) =~= text@);
    }
}

/// How a placeholder's value is aligned.
#[derive(Clone, Copy, Debug, PartialEq, Eq, Structural)]
pub enum FormatAlignment {
    Left,
    Right,
    Center,
}

/// Whether the sign is always printed.
#[derive(Clone, Copy, Debug, PartialEq, Eq, Structural)]
pub enum FormatSign {
    Plus,
    Minus,
}

/// The hexadecimal flavour of `{:x?}` and `{:X?}`.
#[derive(Clone, Copy, Debug, PartialEq, Eq, Structural)]
pub enum FormatDebugHex {
    Lower,
    Upper,
}

/// A width or a precision: a number, or one that an argument gives.
#[derive(Clone, Copy, Debug, PartialEq, Eq, Structural)]
pub enum FormatCount {
    Literal(u16),
    Argument,
}

/// The formatting trait of a placeholder.
#[derive(Clone, Copy, Debug, PartialEq, Eq, Structural)]
pub enum FormatTrait {
    Display,
    Debug,
    LowerExp,
    UpperExp,
    Octal,
    Pointer,
    Binary,
    LowerHex,
    UpperHex,
}

/// What stands between a placeholder's `:` and its trait.
#[derive(Clone, Copy, Debug, PartialEq, Eq, Structural)]
pub struct FormatOptions {
    pub width: Option<FormatCount>,
    pub precision: Option<FormatCount>,
    pub alignment: Option<FormatAlignment>,
    pub fill: Option<char>,
    pub sign: Option<FormatSign>,
    pub alternate: bool,
    pub zero_pad: bool,
    pub debug_hex: Option<FormatDebugHex>,
}

impl FormatAlignment {
    pub open spec fn mark(self) -> char {
        match self {
            FormatAlignment::Left => '<',
            FormatAlignment::Right => '>',
            FormatAlignment::Center => '^',
        }
    }
}

impl FormatOptions {
    /// A width or precision comes from an argument (`{:.*}`, `{:w$}`).
    pub open spec fn counts_argument(self) -> bool {
        self.width == Some(FormatCount::Argument) || self.precision == Some(FormatCount::Argument)
    }

    pub open spec fn align_text(self) -> Seq<char> {
        match (self.alignment, self.fill) {
            (Some(a), Some(fill)) => seq![fill, a.mark()],
            (Some(a), None) => seq![a.mark()],
            (None, _) => seq![],
        }
    }

    pub open spec fn sign_text(self) -> Seq<char> {
        match self.sign {
            Some(FormatSign::Plus) => seq!['+'],
            Some(FormatSign::Minus) => seq!['-'],
            None => seq![],
        }
    }

    pub open spec fn flag_text(self) -> Seq<char> {
        (if self.alternate {
            seq!['#']
        } else {
            seq![]
        }) + (if self.zero_pad {
            seq!['0']
        } else {
            seq![]
        })
    }

    pub open spec fn width_text(self) -> Seq<char> {
        match self.width {
            Some(FormatCount::Literal(n)) => text::decimal(n as nat),
            _ => seq![],
        }
    }

    pub open spec fn precision_text(self) -> Seq<char> {
        match self.precision {
            Some(FormatCount::Literal(n)) => seq!['.'] + text::decimal(n as nat),
            _ => seq![],
        }
    }

    pub open spec fn hex_text(self) -> Seq<char> {
        match self.debug_hex {
            Some(FormatDebugHex::Lower) => seq!['x'],
            Some(FormatDebugHex::Upper) => seq!['X'],
            None => seq![],
        }
    }

    fn align(&self) -> (r: String)
        ensures
            r@ == self.align_text(),
    {
        let mut out: String = String::new();
        if let Some(alignment) = self.alignment {
            if let Some(fill) = self.fill {
                out.push(fill);
            }
            out.push(
                match alignment {
                    FormatAlignment::Left => '<',
                    FormatAlignment::Right => '>',
                    FormatAlignment::Center => '^',
                },
            );
        }
        out
    }

    fn sign(&self) -> (r: String)
        ensures
            r@ == self.sign_text(),
    {
        let mut out: String = String::new();
        if let Some(sign) = self.sign {
            out.push(
                match sign {
                    FormatSign::Plus => '+',
                    FormatSign::Minus => '-',
                },
            );
        }
        out
    }

    fn flags(&self) -> (r: String)
        ensures
            r@ == self.flag_text(),
    {
        let mut out: String = String::new();
        if self.alternate {
            out.push('#');
        }
        if self.zero_pad {
            out.push('0');
        }
        out
    }

    fn width(&self) -> (r: String)
        ensures
            r@ == self.width_text(),
    {
        match self.width {
            Some(FormatCount::Literal(width)) => text::to_decimal(width as u64),
            _ => String::new(),
        }
    }

    fn precision(&self) -> (r: String)
        ensures
            r@ == self.precision_text(),
    {
        let mut out: String = String::new();
        if let Some(FormatCount::Literal(precision)) = self.precision {
            out.push('.');
            assert(out@ =~= seq!['.']);
            text::push_decimal(&mut out, precision as u64);
        }
        out
    }

    fn hex(&self) -> (r: String)
        ensures
            r@ == self.hex_text(),
    {
        let mut out: String = String::new();
        if let Some(debug_hex) = self.debug_hex {
            out.push(
                match debug_hex {
                    FormatDebugHex::Lower => 'x',
                    FormatDebugHex::Upper => 'X',
                },
            );
        }
        out
    }
}

impl FormatTrait {
    pub open spec fn mark(self) -> Seq<char> {
        match self {
            FormatTrait::Display => seq![],
            FormatTrait::Debug => seq!['?'],
            FormatTrait::LowerExp => seq!['e'],
            FormatTrait::UpperExp => seq!['E'],
            FormatTrait::Octal => seq!['o'],
            FormatTrait::Pointer => seq!['p'],
            FormatTrait::Binary => seq!['b'],
            FormatTrait::LowerHex => seq!['x'],
            FormatTrait::UpperHex => seq!['X'],
        }
    }

    fn written(self) -> (r: String)
        ensures
            r@ == self.mark(),
    {
        let mut out: String = String::new();
        match self {
            FormatTrait::Display => {},
            FormatTrait::Debug => out.push('?'),
            FormatTrait::LowerExp => out.push('e'),
            FormatTrait::UpperExp => out.push('E'),
            FormatTrait::Octal => out.push('o'),
            FormatTrait::Pointer => out.push('p'),
            FormatTrait::Binary => out.push('b'),
            FormatTrait::LowerHex => out.push('x'),
            FormatTrait::UpperHex => out.push('X'),
        }
        out
    }
}

/// The placeholder's options as they stand behind its `:`, which is left out
/// when there are none; nothing when a count comes from an argument.
pub open spec fn options_text(options: FormatOptions, trait_: FormatTrait) -> Option<Seq<char>> {
    let spec_text = options.align_text() + options.sign_text() + options.flag_text()
        + options.width_text() + options.precision_text() + options.hex_text() + trait_.mark();
    if options.counts_argument() {
        None
    } else if spec_text.len() == 0 {
        Some(spec_text)
    } else {
        Some(seq![':'] + spec_text)
    }
}

/// `:?`, `:>8.2`, `:x?`: everything the options and the trait carry, with the
/// leading `:`; nothing when a spec uses an argument count (`{:.*}`, `{:w$}`),
/// which a `text!` rewrite cannot carry.
pub fn render_options(options: &FormatOptions, trait_: FormatTrait) -> (r: Option<String>)
    ensures
        text::text_opt(r) == options_text(*options, trait_),
{
    if let Some(FormatCount::Argument) = options.width {
        return None;
    }
    if let Some(FormatCount::Argument) = options.precision {
        return None;
    }
    let mut out: String = options.align();
    out.append(options.sign().as_str());
    out.append(options.flags().as_str());
    out.append(options.width().as_str());
    out.append(options.precision().as_str());
    out.append(options.hex().as_str());
    out.append(trait_.written().as_str());
    if out.as_str().is_empty() {
        Some(out)
    } else {
        let mut colon: String = String::new();
        colon.push(':');
        assert(colon@ =~= seq![':']);
        colon.append(out.as_str());
        Some(colon)
    }
}

/// What a `format!` argument is bound to in the template.
#[derive(Debug)]
pub enum ArgKind {
    Normal,
    Named(Ident),
    Captured(Ident),
}

/// An argument of `format!`, with the expression it stands for where that can
/// be found.
#[derive(Debug)]
pub struct FormatArg {
    pub kind: ArgKind,
    pub expr: Option<usize>,
}

/// A piece of a format template.
#[derive(Debug)]
pub enum FormatPiece {
    Literal(String),
    /// A placeholder and the argument it prints, where that is known.
    Placeholder { index: Option<usize>, options: FormatOptions, trait_: FormatTrait },
}

/// The arguments and the template of a `format!` call.
#[derive(Debug)]
pub struct FormatArgs {
    pub args: Vec<FormatArg>,
    pub template: Vec<FormatPiece>,
}

/// The source between two consecutive `format!` inputs, token by token: a
/// comma, then names and `=` only.
pub open spec fn comma_name(toks: Seq<Lexeme>) -> bool {
    &&& toks.len() > 0
    &&& toks[0].kind is Comma
    &&& forall|i: int| 1 <= i < toks.len() ==> #[trigger] toks[i].kind is Ident || toks[i].kind is Eq
}

/// Whether the tokens between two `format!` inputs are `, name` or `, name =`.
pub fn tokens_are_comma_name(toks: &Vec<Lexeme>) -> (r: bool)
    ensures
        r == comma_name(toks@),
{
    if toks.len() == 0 {
        return false;
    }
    match toks[0].kind {
        Tok::Comma => {},
        _ => {
            return false;
        },
    }
    let mut i: usize = 1;
    while i < toks.len()
        invariant
            1 <= i <= toks.len(),
            forall|k: int|
                1 <= k < i ==> #[trigger] toks@[k].kind is Ident || toks@[k].kind is Eq,
        decreases toks.len() - i,
    {
        match toks[i].kind {
            Tok::Ident | Tok::Eq => {},
            _ => {
                return false;
            },
        }
        i = i + 1;
    }
    true
}

/// The source between two consecutive `format!` inputs must be `, name` or
/// `, name =`; anything else means the spans were mapped by a proc macro.
pub fn between_args_is_comma_name(src: &str) -> (r: bool)
    requires
        encode_utf8(src@).len() <= u32::MAX,
    ensures
        r == comma_name(lexer::lexemes(src@)),
{
    tokens_are_comma_name(&lexer::tokens(src))
}

/// What comes of writing a template anew with a name per argument.
pub ghost enum Rebuilt {
    Text(Seq<char>),
    /// A width or precision comes from an argument, which a slot can't carry.
    Dynamic,
    /// A placeholder's argument is unknown.
    Lost,
}

/// The first `n` pieces of a template written anew, each placeholder under the
/// name of its argument.
pub open spec fn rebuilt(pieces: Seq<FormatPiece>, names: Seq<Seq<char>>, n: int) -> Rebuilt
    decreases n,
{
    if n <= 0 {
        Rebuilt::Text(seq![])
    } else {
        match (rebuilt(pieces, names, n - 1), pieces[n - 1]) {
            (Rebuilt::Text(before), FormatPiece::Literal(text)) => Rebuilt::Text(
                before + escaped(text@),
            ),
            (
                Rebuilt::Text(before),
                FormatPiece::Placeholder { index, options, trait_ },
            ) => match (index, options_text(options, trait_)) {
                (None, _) => Rebuilt::Lost,
                (Some(_), None) => Rebuilt::Dynamic,
                (Some(i), Some(spec_text)) => if i < names.len() {
                    Rebuilt::Text(before + seq!['{'] + names[i as int] + spec_text + seq!['}'])
                } else {
                    Rebuilt::Lost
                },
            },
            (other, _) => other,
        }
    }
}

/// Why a template cannot be written anew.
#[derive(Clone, Copy, Debug, PartialEq, Eq, Structural)]
pub enum RebuildError {
    Dynamic,
    Lost,
}

proof fn lemma_rebuilt_fails(pieces: Seq<FormatPiece>, names: Seq<Seq<char>>, n: int, m: int)
    requires
        n <= m,
        !(rebuilt(pieces, names, n) is Text),
    ensures
        rebuilt(pieces, names, m) == rebuilt(pieces, names, n),
    decreases m,
{
    if n < m && m > 0 {
        lemma_rebuilt_fails(pieces, names, n, m - 1);
    }
}

/// Writes a template anew: every placeholder becomes `{name}` with its options,
/// since `text!` and `s!` only take named slots. Template literals are
/// unescaped text, so braces they contain are escaped again.
pub fn rebuild(pieces: &Vec<FormatPiece>, names: &Vec<String>) -> (r: Result<String, RebuildError>)
    ensures
        match (r, rebuilt(pieces@, text::texts(names@), pieces@.len() as int)) {
            (Ok(out), Rebuilt::Text(text)) => out@ == text,
            (Err(RebuildError::Dynamic), Rebuilt::Dynamic) => true,
            (Err(RebuildError::Lost), Rebuilt::Lost) => true,
            _ => false,
        },
{
    let mut out: String = String::new();
    let mut n: usize = 0;
    let ghost list = text::texts(names@);
    proof {
        assert(out@ =~= seq![]);
    }
    while n < pieces.len()
        invariant
            n <= pieces.len(),
            list == text::texts(names@),
            rebuilt(pieces@, list, n as int) == Rebuilt::Text(out@),
        decreases pieces.len() - n,
    {
        let ghost total = pieces@.len() as int;
        match &pieces[n] {
            FormatPiece::Literal(text) => {
                escape_literal(text.as_str(), &mut out);
            },
            FormatPiece::Placeholder { index, options, trait_ } => {
                let i: usize = match index {
                    Some(i) => *i,
                    None => {
                        proof {
                            lemma_rebuilt_fails(pieces@, list, n + 1, total);
                        }
                        return Err(RebuildError::Lost);
                    },
                };
                let spec_text: String = match render_options(options, *trait_) {
                    Some(spec_text) => spec_text,
                    None => {
                        proof {
                            lemma_rebuilt_fails(pieces@, list, n + 1, total);
                        }
                        return Err(RebuildError::Dynamic);
                    },
                };
                if i >= names.len() {
                    proof {
                        lemma_rebuilt_fails(pieces@, list, n + 1, total);
                    }
                    return Err(RebuildError::Lost);
                }
                let ghost before = out@;
                out.push('{');
                assert(out@ =~= before + seq!['{']);
                out.append(names[i].as_str());
                out.append(spec_text.as_str());
                let ghost inner = out@;
                out.push('}');
                assert(out@ =~= inner + seq!['}']);
            },
        }
        n = n + 1;
    }
    Ok(out)
}

/// The source between two inputs reads as it must.
pub open spec fn gap_in_order(gap: Option<String>) -> bool {
    match gap {
        Some(source) => comma_name(lexer::lexemes(source@)),
        None => false,
    }
}

/// Whether the format string or an argument has its span set by a proc macro to
/// something inside a macro callsite: the source between some two consecutive
/// inputs, where it can be read at all, is not `, name` or `, name =`.
pub fn has_span_from_proc_macro(gaps: &Vec<Option<String>>) -> (r: bool)
    requires
        forall|i: int|
            0 <= i < gaps@.len() ==> (#[trigger] gaps@[i] matches Some(source) ==> encode_utf8(
                source@,
            ).len() <= u32::MAX),
    ensures
        r == (exists|i: int| 0 <= i < gaps@.len() && !gap_in_order(#[trigger] gaps@[i])),
{
    let mut i: usize = 0;
    while i < gaps.len()
        invariant
            i <= gaps.len(),
            forall|k: int|
                0 <= k < gaps@.len() ==> (#[trigger] gaps@[k] matches Some(source)
                    ==> encode_utf8(source@).len() <= u32::MAX),
            forall|k: int| 0 <= k < i ==> gap_in_order(#[trigger] gaps@[k]),
        decreases gaps.len() - i,
    {
        let ordered: bool = match &gaps[i] {
            Some(source) => between_args_is_comma_name(source.as_str()),
            None => false,
        };
        if !ordered {
            assert(!gap_in_order(gaps@[i as int]));
            return true;
        }
        i = i + 1;
    }
    false
}

/// The expression whose value a slot subscribes to: the signal of a `get()`, or
/// the expression itself.
pub open spec fn slot_value(hir: Hir, expr: Option<usize>) -> Option<usize> {
    match expr {
        Some(n) => if hir.node(n).snapshot && hir.node(n).get_receiver is Some {
            hir.node(n).get_receiver
        } else {
            Some(n)
        },
        None => None,
    }
}

fn slot_expr(hir: &Hir, expr: Option<usize>) -> (r: Option<usize>)
    requires
        hir.wf(),
        hir::opt_below(expr, hir.nodes@.len() as int),
    ensures
        r == slot_value(*hir, expr),
        hir::opt_below(r, hir.nodes@.len() as int),
{
    match expr {
        Some(n) => {
            proof {
                assert(hir.node_wf(n));
            }
            if hir.nodes[n].snapshot && hir.nodes[n].get_receiver.is_some() {
                hir.nodes[n].get_receiver
            } else {
                Some(n)
            }
        },
        None => None,
    }
}

/// A name for the slot of an expression, and the source it must be bound to.
pub open spec fn slot_name(hir: Hir, fallback: int, n: usize) -> (Seq<char>, Option<Seq<char>>) {
    let source = match hir.source(n) {
        Some(source) => source,
        None => "_"@,
    };
    match hir.kind(n) {
        Kind::Path { plain: true, segments, res: _ } => if segments@.len() == 1 {
            (segments@[0].written@, None)
        } else if segments@.len() > 0 {
            (segments@.last().written@, Some(source))
        } else {
            (signal_map::numbered(fallback), Some(source))
        },
        Kind::Field { base: _, name } => (name.written@, Some(source)),
        _ => (signal_map::numbered(fallback), Some(source)),
    }
}

/// An identifier usable in a `text!` `{name}` placeholder, paired with the source
/// of the value it must be bound to; no source when the name is a plain in-scope
/// binding that `text!` captures by itself.
pub fn placeholder_name(hir: &Hir, fallback: usize, n: usize) -> (r: (String, Option<String>))
    requires
        hir.has(n),
    ensures
        (r.0@, text::text_opt(r.1)) == slot_name(*hir, fallback as int, n),
{
    let source: String = match hir.snippet_opt(n) {
        Some(source) => source,
        None => "_".to_owned(),
    };
    match &hir.nodes[n].kind {
        Kind::Path { plain: true, segments, .. } => {
            let count: usize = segments.len();
            if count == 1 {
                (segments[0].written.clone(), None)
            } else if count > 0 {
                (segments[count - 1].written.clone(), Some(source))
            } else {
                (signal_map::numbered_name(fallback), Some(source))
            }
        },
        Kind::Field { name, .. } => (name.written.clone(), Some(source)),
        _ => (signal_map::numbered_name(fallback), Some(source)),
    }
}

/// The name of an argument in `text!`, and what it is bound to.
pub open spec fn arg_slot(hir: Hir, arg: FormatArg, index: int) -> Option<
    (Seq<char>, Option<Seq<char>>),
> {
    match (arg.kind, slot_value(hir, arg.expr)) {
        (ArgKind::Captured(ident), _) => Some((ident.written@, None)),
        (ArgKind::Named(ident), Some(n)) => match hir.source(n) {
            Some(source) => Some((ident.written@, Some(source))),
            None => None,
        },
        (ArgKind::Normal, Some(n)) => Some(slot_name(hir, index, n)),
        (_, None) => None,
    }
}

fn name_arg(hir: &Hir, arg: &FormatArg, index: usize) -> (r: Option<(String, Option<String>)>)
    requires
        hir.wf(),
        hir::opt_below(arg.expr, hir.nodes@.len() as int),
    ensures
        match r {
            Some((name, source)) => arg_slot(*hir, *arg, index as int) == Some(
                (name@, text::text_opt(source)),
            ),
            None => arg_slot(*hir, *arg, index as int) is None,
        },
{
    let value: Option<usize> = slot_expr(hir, arg.expr);
    match &arg.kind {
        ArgKind::Captured(ident) => Some((ident.written.clone(), None)),
        ArgKind::Named(ident) => match value {
            Some(n) => match hir.snippet_opt(n) {
                Some(source) => Some((ident.written.clone(), Some(source))),
                None => None,
            },
            None => None,
        },
        ArgKind::Normal => match value {
            Some(n) => Some(placeholder_name(hir, index, n)),
            None => None,
        },
    }
}

/// The names of the first `n` arguments, and the `name = source` bindings.
pub open spec fn arg_slots(hir: Hir, args: Seq<FormatArg>, n: int) -> Option<
    (Seq<Seq<char>>, Seq<Seq<char>>),
>
    decreases n,
{
    if n <= 0 {
        Some((seq![], seq![]))
    } else {
        match (arg_slots(hir, args, n - 1), arg_slot(hir, args[n - 1], n - 1)) {
            (Some((names, bindings)), Some((name, None))) => Some((names.push(name), bindings)),
            (Some((names, bindings)), Some((name, Some(source)))) => Some(
                (names.push(name), bindings.push(name + " = "@ + source)),
            ),
            _ => None,
        }
    }
}

proof fn lemma_no_slots(hir: Hir, args: Seq<FormatArg>, m: int, n: int)
    requires
        m <= n,
        arg_slots(hir, args, m) is None,
    ensures
        arg_slots(hir, args, n) is None,
    decreases n,
{
    if m < n && n > 0 {
        lemma_no_slots(hir, args, m, n - 1);
    }
}

fn name_args(hir: &Hir, args: &Vec<FormatArg>) -> (r: Option<(Vec<String>, Vec<String>)>)
    requires
        hir.wf(),
        forall|i: int|
            0 <= i < args@.len() ==> hir::opt_below(
                (#[trigger] args@[i]).expr,
                hir.nodes@.len() as int,
            ),
    ensures
        match r {
            Some((names, bindings)) => arg_slots(*hir, args@, args@.len() as int) == Some(
                (text::texts(names@), text::texts(bindings@)),
            ),
            None => arg_slots(*hir, args@, args@.len() as int) is None,
        },
{
    let mut names: Vec<String> = Vec::new();
    let mut bindings: Vec<String> = Vec::new();
    let mut i: usize = 0;
    proof {
        assert(text::texts(names@) =~= seq![]);
        assert(text::texts(bindings@) =~= seq![]);
    }
    while i < args.len()
        invariant
            i <= args.len(),
            hir.wf(),
            forall|k: int|
                0 <= k < args@.len() ==> hir::opt_below(
                    (#[trigger] args@[k]).expr,
                    hir.nodes@.len() as int,
                ),
            arg_slots(*hir, args@, i as int) == Some(
                (text::texts(names@), text::texts(bindings@)),
            ),
        decreases args.len() - i,
    {
        let ghost before = (names@, bindings@);
        match name_arg(hir, &args[i], i) {
            Some((name, source)) => {
                if let Some(source) = source {
                    let binding: String = text::cat3(name.as_str(), " = ", source.as_str());
                    bindings.push(binding);
                    proof {
                        assert(text::texts(bindings@) =~= text::texts(before.1).push(binding@));
                    }
                }
                names.push(name);
                proof {
                    assert(text::texts(names@) =~= text::texts(before.0).push(name@));
                }
            },
            None => {
                proof {
                    lemma_no_slots(*hir, args@, i + 1, args@.len() as int);
                }
                return None;
            },
        }
        i = i + 1;
    }
    Some((names, bindings))
}

/// The `text!` call that a `format!` call becomes.
pub open spec fn text_rewrite(hir: Hir, format: FormatArgs) -> Option<Seq<char>> {
    match arg_slots(hir, format.args@, format.args@.len() as int) {
        Some((names, bindings)) => match rebuilt(
            format.template@,
            names,
            format.template@.len() as int,
        ) {
            Rebuilt::Text(literal) => Some(
                template::macro_text("text!("@, literal, ""@, bindings),
            ),
            _ => None,
        },
        None => None,
    }
}

/// Builds the `text!("{name}"[, name = expr]*)` rewrite for a `format!(..)` call
/// in a text position: every argument is named, and explicit `name = expr`
/// bindings keep their name with the snapshot's receiver as the value. Nothing
/// when an argument cannot be mapped back to source, or when a placeholder's
/// options cannot be carried over.
pub fn text_macro_suggestion(hir: &Hir, format: &FormatArgs) -> (r: Option<String>)
    requires
        hir.wf(),
        forall|i: int|
            0 <= i < format.args@.len() ==> hir::opt_below(
                (#[trigger] format.args@[i]).expr,
                hir.nodes@.len() as int,
            ),
    ensures
        text::text_opt(r) == text_rewrite(*hir, *format),
{
    let (names, bindings): (Vec<String>, Vec<String>) = match name_args(hir, &format.args) {
        Some(found) => found,
        None => {
            return None;
        },
    };
    match rebuild(&format.template, &names) {
        Ok(literal) => Some(template::write_macro("text!(", literal.as_str(), "", &bindings)),
        Err(_) => None,
    }
}

} // verus!
