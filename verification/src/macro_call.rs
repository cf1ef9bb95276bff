//! `text!` and `s!` invocations, read back from their source.

use crate::lexer;
use crate::lexer::{Lexeme, Tok};
use crate::text;
use std::ops::Range;
use vstd::prelude::*;
use vstd::utf8::*;

verus! {

impl Tok {
    /// `(`, `{` or `[`.
    pub open spec fn opens(self) -> bool {
        self is OpenParen || self is OpenBrace || self is OpenBracket
    }

    /// `)`, `}` or `]`.
    pub open spec fn closes(self) -> bool {
        self is CloseParen || self is CloseBrace || self is CloseBracket
    }

    /// A string literal, plain or raw, that is complete.
    pub open spec fn is_text(self) -> bool {
        match self {
            Tok::Str { terminated } => terminated,
            Tok::RawStr { hashes } => hashes is Some,
            _ => false,
        }
    }

    fn is_open(self) -> (r: bool)
        ensures
            r == self.opens(),
    {
        match self {
            Tok::OpenParen | Tok::OpenBrace | Tok::OpenBracket => true,
            _ => false,
        }
    }

    fn is_close(self) -> (r: bool)
        ensures
            r == self.closes(),
    {
        match self {
            Tok::CloseParen | Tok::CloseBrace | Tok::CloseBracket => true,
            _ => false,
        }
    }

    fn is_string(self) -> (r: bool)
        ensures
            r == self.is_text(),
    {
        match self {
            Tok::Str { terminated } => terminated,
            Tok::RawStr { hashes } => hashes.is_some(),
            _ => false,
        }
    }
}

/// The first `!` of `toks` at or after `i`, if there is one.
pub open spec fn first_bang(toks: Seq<Lexeme>, i: int) -> Option<int>
    decreases toks.len() - i,
{
    if i >= toks.len() {
        None
    } else if toks[i].kind is Bang {
        Some(i)
    } else {
        first_bang(toks, i + 1)
    }
}

/// Where the arguments of a macro call begin: behind the opening delimiter that
/// follows the first `!`.
pub open spec fn args_start(toks: Seq<Lexeme>) -> Option<int> {
    match first_bang(toks, 0) {
        Some(bang) => if bang + 1 < toks.len() && toks[bang + 1].kind.opens() {
            Some(bang + 2)
        } else {
            None
        },
        None => None,
    }
}

/// The token behind the group that is `depth` delimiters deep at `i`.
pub open spec fn group_end(toks: Seq<Lexeme>, i: int, depth: int) -> int
    decreases toks.len() - i,
{
    if i >= toks.len() || depth <= 0 {
        i
    } else if toks[i].kind.opens() {
        group_end(toks, i + 1, depth + 1)
    } else if toks[i].kind.closes() {
        group_end(toks, i + 1, depth - 1)
    } else {
        group_end(toks, i + 1, depth)
    }
}

/// The token that ends the value that `i` is in, `nested` delimiters deep: a
/// comma, or the delimiter that closes the call.
pub open spec fn value_end(toks: Seq<Lexeme>, i: int, nested: int) -> int
    decreases toks.len() - i,
{
    if i >= toks.len() {
        i
    } else if toks[i].kind.opens() {
        value_end(toks, i + 1, nested + 1)
    } else if toks[i].kind.closes() {
        if nested == 0 {
            i
        } else {
            value_end(toks, i + 1, nested - 1)
        }
    } else if toks[i].kind is Comma && nested == 0 {
        i
    } else {
        value_end(toks, i + 1, nested)
    }
}

pub proof fn lemma_group_end_bounds(toks: Seq<Lexeme>, i: int, depth: int)
    ensures
        group_end(toks, i, depth) >= i,
        i <= toks.len() ==> group_end(toks, i, depth) <= toks.len(),
    decreases toks.len() - i,
{
    if i >= toks.len() || depth <= 0 {
    } else if toks[i].kind.opens() {
        lemma_group_end_bounds(toks, i + 1, depth + 1);
    } else if toks[i].kind.closes() {
        lemma_group_end_bounds(toks, i + 1, depth - 1);
    } else {
        lemma_group_end_bounds(toks, i + 1, depth);
    }
}

pub proof fn lemma_value_end_bounds(toks: Seq<Lexeme>, i: int, nested: int)
    ensures
        value_end(toks, i, nested) >= i,
        i <= toks.len() ==> value_end(toks, i, nested) <= toks.len(),
    decreases toks.len() - i,
{
    if i >= toks.len() {
    } else if toks[i].kind.opens() {
        lemma_value_end_bounds(toks, i + 1, nested + 1);
    } else if toks[i].kind.closes() {
        if nested != 0 {
            lemma_value_end_bounds(toks, i + 1, nested - 1);
        }
    } else if !(toks[i].kind is Comma && nested == 0) {
        lemma_value_end_bounds(toks, i + 1, nested);
    }
}

/// The source that `lexeme` stands for.
pub open spec fn token_text(src: Seq<char>, lexeme: Lexeme) -> Seq<char> {
    lexer::slice(src, lexeme.start as int, lexeme.end as int)
}

/// A `name = value` argument: the name, and the value's byte range.
pub ghost struct BindingView {
    pub name: Seq<char>,
    pub start: int,
    pub end: int,
}

/// What a `text!` invocation holds.
#[verifier::ext_equal]
pub ghost struct TextCallView {
    pub literal: Option<Seq<char>>,
    pub context: Option<Seq<char>>,
    pub bindings: Seq<BindingView>,
}

impl TextCallView {
    pub open spec fn empty() -> TextCallView {
        TextCallView { literal: None, context: None, bindings: Seq::empty() }
    }
}

/// `name =` stands at token `i`. The lexer gives `==` as two tokens that touch:
/// a comparison is no pair.
pub open spec fn opens_pair(toks: Seq<Lexeme>, i: int) -> bool {
    &&& 0 <= i && i + 1 < toks.len()
    &&& toks[i].kind is Ident && toks[i + 1].kind is Eq
    &&& !(i + 2 < toks.len() && toks[i + 2].kind is Eq && toks[i + 2].start == toks[i + 1].end)
}

fn is_pair(toks: &Vec<Lexeme>, i: usize) -> (r: bool)
    requires
        i <= toks.len(),
    ensures
        r == opens_pair(toks@, i as int),
{
    if toks.len() - i < 2 || toks[i].kind != Tok::Ident || toks[i + 1].kind != Tok::Eq {
        return false;
    }
    !(toks.len() - i > 2 && toks[i + 2].kind == Tok::Eq && toks[i + 2].start == toks[i + 1].end)
}

/// The arguments of a `text!` call from token `i` on, added to `found`.
///
/// The first string literal is the template. An `@` behind it opens the
/// context, which is the next token. `name = value` binds, and a value runs to
/// the next comma that no delimiter encloses. Nested groups are skipped, as is
/// everything else, up to the delimiter that closes the call.
pub open spec fn text_args(
    src: Seq<char>,
    toks: Seq<Lexeme>,
    i: int,
    found: TextCallView,
) -> Option<TextCallView>
    decreases toks.len() - i,
{
    if i >= toks.len() {
        Some(found)
    } else if toks[i].kind.opens() {
        proof {
            lemma_group_end_bounds(toks, i + 1, 1);
        }
        text_args(src, toks, group_end(toks, i + 1, 1), found)
    } else if toks[i].kind.closes() {
        Some(found)
    } else if toks[i].kind.is_text() && found.literal is None {
        match lexer::cooked(token_text(src, toks[i])) {
            Some(value) => text_args(
                src,
                toks,
                i + 1,
                TextCallView { literal: Some(value), ..found },
            ),
            None => None,
        }
    } else if toks[i].kind is At && found.literal is Some && found.context is None {
        if i + 1 < toks.len() {
            let context = lexer::slice(src, toks[i].start as int, toks[i + 1].end as int);
            text_args(src, toks, i + 2, TextCallView { context: Some(context), ..found })
        } else {
            None
        }
    } else if opens_pair(toks, i) {
        let end = value_end(toks, i + 2, 0);
        proof {
            lemma_value_end_bounds(toks, i + 2, 0);
        }
        if i + 2 < toks.len() && end > i + 2 {
            let binding = BindingView {
                name: token_text(src, toks[i]),
                start: toks[i + 2].start as int,
                end: toks[end - 1].end as int,
            };
            text_args(
                src,
                toks,
                end,
                TextCallView { bindings: found.bindings.push(binding), ..found },
            )
        } else {
            None
        }
    } else {
        text_args(src, toks, i + 1, found)
    }
}

/// The parts of a `text!` call with the given tokens; nothing where the source
/// is no such call or has no template.
pub open spec fn text_call(src: Seq<char>, toks: Seq<Lexeme>) -> Option<TextCallView> {
    match args_start(toks) {
        Some(start) => match text_args(src, toks, start, TextCallView::empty()) {
            Some(call) => if call.literal is Some {
                Some(call)
            } else {
                None
            },
            None => None,
        },
        None => None,
    }
}

/// A call that is read as a name, `!`, a string literal between delimiters, and
/// nothing else has that literal's value for its template, no context and no
/// bindings.
pub proof fn literal_alone_is_the_template(src: Seq<char>, toks: Seq<Lexeme>)
    requires
        toks.len() == 5,
        toks[0].kind is Ident,
        toks[1].kind is Bang,
        toks[2].kind.opens(),
        toks[3].kind.is_text(),
        toks[4].kind.closes(),
    ensures
        text_call(src, toks) == (match lexer::cooked(token_text(src, toks[3])) {
            Some(value) => Some(
                TextCallView { literal: Some(value), context: None, bindings: Seq::empty() },
            ),
            None => None,
        }),
{
    reveal_with_fuel(first_bang, 3);
    reveal_with_fuel(text_args, 3);
}

/// A `text!("lit" @ ctx, name = expr, ..)` invocation, parsed for lints that
/// read or rewrite the call.
pub struct TextCall {
    /// The format literal's cooked value.
    pub literal: String,
    /// The `@ "ctx"` or `@ ident` clause, verbatim source to re-emit.
    pub context: Option<String>,
    /// The `name = expr` pairs: the name and the value's byte range.
    pub bindings: Vec<(String, Range<usize>)>,
}

pub open spec fn binding_views(list: Seq<(String, Range<usize>)>) -> Seq<BindingView> {
    list.map_values(
        |b: (String, Range<usize>)|
            BindingView { name: b.0@, start: b.1.start as int, end: b.1.end as int },
    )
}

impl View for TextCall {
    type V = TextCallView;

    open spec fn view(&self) -> TextCallView {
        TextCallView {
            literal: Some(self.literal@),
            context: text::text_opt(self.context),
            bindings: binding_views(self.bindings@),
        }
    }
}

/// Where the arguments of a macro call begin.
fn find_args(toks: &Vec<Lexeme>) -> (r: Option<usize>)
    ensures
        match r {
            Some(start) => args_start(toks@) == Some(start as int) && 2 <= start <= toks.len(),
            None => args_start(toks@) is None,
        },
{
    let mut i: usize = 0;
    while i < toks.len()
        invariant
            i <= toks.len(),
            first_bang(toks@, 0) == first_bang(toks@, i as int),
        decreases toks.len() - i,
    {
        if let Tok::Bang = toks[i].kind {
            if i + 1 < toks.len() && toks[i + 1].kind.is_open() {
                return Some(i + 2);
            }
            return None;
        }
        i = i + 1;
    }
    None
}

fn find_group_end(toks: &Vec<Lexeme>, from: usize) -> (r: usize)
    requires
        1 <= from <= toks.len(),
    ensures
        r == group_end(toks@, from as int, 1),
        from <= r <= toks.len(),
{
    let mut depth: usize = 1;
    let mut i: usize = from;
    while i < toks.len() && depth > 0
        invariant
            1 <= from <= i <= toks.len(),
            depth <= 1 + i - from,
            group_end(toks@, from as int, 1) == group_end(toks@, i as int, depth as int),
        decreases toks.len() - i,
    {
        if toks[i].kind.is_open() {
            depth = depth + 1;
        } else if toks[i].kind.is_close() {
            depth = depth - 1;
        }
        i = i + 1;
    }
    i
}

fn find_value_end(toks: &Vec<Lexeme>, from: usize) -> (r: usize)
    requires
        from <= toks.len(),
    ensures
        r == value_end(toks@, from as int, 0),
        from <= r <= toks.len(),
{
    let mut nested: usize = 0;
    let mut i: usize = from;
    while i < toks.len()
        invariant
            from <= i <= toks.len(),
            nested <= i,
            value_end(toks@, from as int, 0) == value_end(toks@, i as int, nested as int),
        decreases toks.len() - i,
    {
        if toks[i].kind.is_open() {
            nested = nested + 1;
        } else if toks[i].kind.is_close() {
            if nested == 0 {
                return i;
            }
            nested = nested - 1;
        } else if let Tok::Comma = toks[i].kind {
            if nested == 0 {
                return i;
            }
        }
        i = i + 1;
    }
    i
}

/// The source of one token.
fn source_of<'a>(src: &'a str, toks: &Vec<Lexeme>, i: usize) -> (r: &'a str)
    requires
        lexer::placed(src@, toks@),
        i < toks.len(),
    ensures
        r@ == token_text(src@, toks@[i as int]),
        encode_utf8(r@).len() <= encode_utf8(src@).len(),
{
    lexer::str_slice(src, toks[i].start, toks[i].end)
}

/// Reads the tokens of a `text!` call into its parts.
pub fn parse_text_tokens(src: &str, toks: &Vec<Lexeme>) -> (r: Option<TextCall>)
    requires
        lexer::placed(src@, toks@),
        encode_utf8(src@).len() <= i32::MAX,
    ensures
        match r {
            Some(call) => text_call(src@, toks@) == Some(call@),
            None => text_call(src@, toks@) is None,
        },
{
    let mut i: usize = match find_args(toks) {
        Some(start) => start,
        None => {
            return None;
        },
    };
    let mut literal: Option<String> = None;
    let mut context: Option<String> = None;
    let mut bindings: Vec<(String, Range<usize>)> = Vec::new();
    let ghost start = i as int;
    proof {
        assert(binding_views(bindings@) =~= Seq::empty());
    }
    while i < toks.len()
        invariant_except_break
            start <= i <= toks.len(),
            lexer::placed(src@, toks@),
            encode_utf8(src@).len() <= i32::MAX,
            text_args(src@, toks@, start, TextCallView::empty()) == text_args(
                src@,
                toks@,
                i as int,
                TextCallView {
                    literal: text::text_opt(literal),
                    context: text::text_opt(context),
                    bindings: binding_views(bindings@),
                },
            ),
            args_start(toks@) == Some(start),
        ensures
            args_start(toks@) == Some(start),
            text_args(src@, toks@, start, TextCallView::empty()) == Some(
                TextCallView {
                    literal: text::text_opt(literal),
                    context: text::text_opt(context),
                    bindings: binding_views(bindings@),
                },
            ),
        decreases toks.len() - i,
    {
        let kind: Tok = toks[i].kind;
        if kind.is_open() {
            i = find_group_end(toks, i + 1);
            continue;
        }
        if kind.is_close() {
            break;
        }
        if kind.is_string() && literal.is_none() {
            match lexer::unescape_str(source_of(src, toks, i)) {
                Some(value) => {
                    literal = Some(value);
                },
                None => {
                    return None;
                },
            }
            i = i + 1;
            continue;
        }
        if literal.is_some() && context.is_none() {
            if let Tok::At = kind {
                if i + 1 >= toks.len() {
                    return None;
                }
                context = Some(lexer::str_slice(src, toks[i].start, toks[i + 1].end).to_owned());
                i = i + 2;
                continue;
            }
        }
        if is_pair(toks, i) {
            if i + 2 >= toks.len() {
                return None;
            }
            let name: String = source_of(src, toks, i).to_owned();
            let end: usize = find_value_end(toks, i + 2);
            if end == i + 2 {
                return None;
            }
            let ghost prior = bindings@;
            bindings.push((name, toks[i + 2].start..toks[end - 1].end));
            proof {
                assert(binding_views(bindings@) =~= binding_views(prior).push(
                    BindingView {
                        name: token_text(src@, toks@[i as int]),
                        start: toks@[i + 2].start as int,
                        end: toks@[end - 1].end as int,
                    },
                ));
            }
            i = end;
            continue;
        }
        i = i + 1;
    }
    match literal {
        Some(literal) => Some(TextCall { literal, context, bindings }),
        None => None,
    }
}

/// Parses `text!("lit" @ ctx, name = expr, ..)` back into parts; nothing when
/// the source isn't that shape.
pub fn parse_text_call(src: &str) -> (r: Option<TextCall>)
    requires
        encode_utf8(src@).len() <= i32::MAX,
    ensures
        match r {
            Some(call) => text_call(src@, lexer::lexemes(src@)) == Some(call@),
            None => text_call(src@, lexer::lexemes(src@)) is None,
        },
{
    let toks: Vec<Lexeme> = lexer::tokens(src);
    parse_text_tokens(src, &toks)
}

/// `list` with `text` behind it, unless the text is empty.
pub open spec fn push_nonempty(list: Seq<Seq<char>>, text: Seq<char>) -> Seq<Seq<char>> {
    if text.len() == 0 {
        list
    } else {
        list.push(text)
    }
}

/// The sources of a macro call's arguments, trimmed, empty ones left out: what
/// stands between the commas that no delimiter encloses. The one at token `i`
/// begins at byte `start`, `depth` delimiters deep. Nothing where the call is
/// not closed.
pub open spec fn arg_texts(
    src: Seq<char>,
    toks: Seq<Lexeme>,
    i: int,
    depth: int,
    start: int,
    found: Seq<Seq<char>>,
) -> Option<Seq<Seq<char>>>
    decreases toks.len() - i,
{
    if i >= toks.len() {
        None
    } else if toks[i].kind.opens() {
        arg_texts(src, toks, i + 1, depth + 1, start, found)
    } else if toks[i].kind.closes() && depth > 1 {
        arg_texts(src, toks, i + 1, depth - 1, start, found)
    } else {
        let arg = text::trimmed(lexer::slice(src, start, toks[i].start as int));
        if toks[i].kind.closes() {
            Some(push_nonempty(found, arg))
        } else if toks[i].kind is Comma && depth == 1 {
            arg_texts(src, toks, i + 1, 1, toks[i].end as int, push_nonempty(found, arg))
        } else {
            arg_texts(src, toks, i + 1, depth, start, found)
        }
    }
}

/// The sources of the arguments of the macro call with the given tokens.
pub open spec fn call_args(src: Seq<char>, toks: Seq<Lexeme>) -> Option<Seq<Seq<char>>> {
    match args_start(toks) {
        Some(start) => arg_texts(src, toks, start, 1, toks[start - 1].end as int, Seq::empty()),
        None => None,
    }
}

fn push_arg(list: &mut Vec<String>, arg: String)
    ensures
        text::texts(final(list)@) == push_nonempty(text::texts(old(list)@), arg@),
        final(list)@ == old(list)@ || final(list)@ == old(list)@.push(arg),
{
    if !arg.as_str().is_empty() {
        list.push(arg);
        proof {
            assert(text::texts(list@) =~= text::texts(old(list)@).push(arg@));
        }
    }
}

/// Splits a macro call's arguments at the commas that no delimiter encloses.
pub fn split_args(src: &str, toks: &Vec<Lexeme>) -> (r: Option<Vec<String>>)
    requires
        lexer::placed(src@, toks@),
    ensures
        match r {
            Some(args) => call_args(src@, toks@) == Some(text::texts(args@)),
            None => call_args(src@, toks@) is None,
        },
        r matches Some(args) ==> forall|i: int|
            #![trigger args@[i]]
            0 <= i < args.len() ==> encode_utf8(args@[i]@).len() <= encode_utf8(src@).len(),
{
    let first: usize = match find_args(toks) {
        Some(start) => start,
        None => {
            return None;
        },
    };
    let mut args: Vec<String> = Vec::new();
    let mut depth: usize = 1;
    let mut from: usize = first - 1;
    let mut i: usize = first;
    proof {
        assert(text::texts(args@) =~= Seq::empty());
    }
    while i < toks.len()
        invariant
            2 <= first <= i <= toks.len(),
            from < i,
            1 <= depth <= i,
            lexer::placed(src@, toks@),
            args_start(toks@) == Some(first as int),
            call_args(src@, toks@) == arg_texts(
                src@,
                toks@,
                i as int,
                depth as int,
                toks@[from as int].end as int,
                text::texts(args@),
            ),
            forall|k: int|
                #![trigger args@[k]]
                0 <= k < args.len() ==> encode_utf8(args@[k]@).len() <= encode_utf8(src@).len(),
        decreases toks.len() - i,
    {
        let kind: Tok = toks[i].kind;
        if kind.is_open() {
            depth = depth + 1;
        } else if kind.is_close() {
            if depth == 1 {
                let arg = text::trim(lexer::str_slice(src, toks[from].end, toks[i].start));
                push_arg(&mut args, arg);
                return Some(args);
            }
            depth = depth - 1;
        } else if let Tok::Comma = kind {
            if depth == 1 {
                let arg = text::trim(lexer::str_slice(src, toks[from].end, toks[i].start));
                push_arg(&mut args, arg);
                from = i;
            }
        }
        i = i + 1;
    }
    None
}

/// What an `s!` invocation holds.
#[verifier::ext_equal]
pub ghost struct SCallView {
    pub template: Seq<char>,
    pub positional: Seq<Seq<char>>,
    pub named: Seq<(Seq<char>, Seq<char>)>,
}

/// An argument reads `name = value`.
pub open spec fn is_named(toks: Seq<Lexeme>) -> bool {
    opens_pair(toks, 0)
}

/// The call with its `n`th argument, whose source and tokens are given, added.
pub open spec fn with_arg(call: SCallView, arg: Seq<char>, toks: Seq<Lexeme>) -> SCallView {
    if is_named(toks) {
        let value = lexer::slice(arg, toks[1].end as int, encode_utf8(arg).len() as int);
        SCallView {
            named: call.named.push((token_text(arg, toks[0]), text::trimmed(value))),
            ..call
        }
    } else {
        SCallView { positional: call.positional.push(arg), ..call }
    }
}

/// An `s!` call's parts given its arguments' sources and their tokens, of which
/// the first `n` are read.
///
/// The first argument is the format string: one string literal and nothing
/// else. Each other one is `name = value` or positional.
pub open spec fn s_call(
    args: Seq<Seq<char>>,
    toks: Seq<Seq<Lexeme>>,
    n: int,
) -> Option<SCallView>
    decreases n,
{
    if args.len() == 0 || n <= 0 {
        None
    } else if n == 1 {
        if toks[0].len() == 1 && toks[0][0].kind.is_text() {
            match lexer::cooked(args[0]) {
                Some(template) => Some(
                    SCallView { template, positional: Seq::empty(), named: Seq::empty() },
                ),
                None => None,
            }
        } else {
            None
        }
    } else {
        match s_call(args, toks, n - 1) {
            Some(call) => Some(with_arg(call, args[n - 1], toks[n - 1])),
            None => None,
        }
    }
}

/// An `s!("lit", expr*, name = expr*)` invocation, parsed back from source; a
/// proc macro leaves no `format_args!` node.
pub struct SCall {
    /// The format literal's cooked text, format escapes intact.
    pub template: String,
    /// Positional argument sources, in order.
    pub positional: Vec<String>,
    /// `name = expr` pairs, in order.
    pub named: Vec<(String, String)>,
}

pub open spec fn pair_texts(list: Seq<(String, String)>) -> Seq<(Seq<char>, Seq<char>)> {
    list.map_values(|p: (String, String)| (p.0@, p.1@))
}

impl View for SCall {
    type V = SCallView;

    open spec fn view(&self) -> SCallView {
        SCallView {
            template: self.template@,
            positional: text::texts(self.positional@),
            named: pair_texts(self.named@),
        }
    }
}

/// The token lists, each as a sequence.
pub open spec fn token_lists(toks: Seq<Vec<Lexeme>>) -> Seq<Seq<Lexeme>> {
    toks.map_values(|t: Vec<Lexeme>| t@)
}

/// Reads an `s!` call's arguments, given each one's source and tokens.
pub fn parse_s_args(args: &Vec<String>, toks: &Vec<Vec<Lexeme>>) -> (r: Option<SCall>)
    requires
        toks.len() == args.len(),
        forall|i: int|
            #![trigger args@[i]]
            0 <= i < args.len() ==> lexer::placed(args@[i]@, toks@[i]@),
        args.len() > 0 ==> encode_utf8(args@[0]@).len() <= i32::MAX,
    ensures
        match r {
            Some(call) => s_call(text::texts(args@), token_lists(toks@), args.len() as int) == Some(
                call@,
            ),
            None => s_call(text::texts(args@), token_lists(toks@), args.len() as int) is None,
        },
{
    let ghost sources = text::texts(args@);
    let ghost lists = token_lists(toks@);
    if args.len() == 0 {
        return None;
    }
    proof {
        assert(sources[0] == args@[0]@ && lists[0] == toks@[0]@);
    }
    if !(toks[0].len() == 1 && toks[0][0].kind.is_string()) {
        proof {
            lemma_s_call_none(sources, lists, args.len() as int);
        }
        return None;
    }
    let template: String = match lexer::unescape_str(args[0].as_str()) {
        Some(template) => template,
        None => {
            proof {
                lemma_s_call_none(sources, lists, args.len() as int);
            }
            return None;
        },
    };
    let mut call: SCall = SCall { template, positional: Vec::new(), named: Vec::new() };
    proof {
        assert(text::texts(call.positional@) =~= Seq::empty());
        assert(pair_texts(call.named@) =~= Seq::empty());
    }
    let mut n: usize = 1;
    while n < args.len()
        invariant
            1 <= n <= args.len(),
            toks.len() == args.len(),
            sources == text::texts(args@),
            lists == token_lists(toks@),
            forall|i: int|
                #![trigger args@[i]]
                0 <= i < args.len() ==> lexer::placed(args@[i]@, toks@[i]@),
            s_call(sources, lists, n as int) == Some(call@),
        decreases args.len() - n,
    {
        let arg: &str = args[n].as_str();
        let list: &Vec<Lexeme> = &toks[n];
        let ghost prior = call@;
        let ghost named = call.named@;
        let ghost positional = call.positional@;
        proof {
            assert(sources[n as int] == arg@ && lists[n as int] == list@);
        }
        if is_pair(list, 0) {
            let name: String = source_of(arg, list, 0).to_owned();
            proof {
                encode_utf8_valid_utf8(arg@);
                is_char_boundary_start_end_of_seq(encode_utf8(arg@));
            }
            let value: String = text::trim(
                lexer::str_slice(arg, list[1].end, arg.as_bytes().len()),
            );
            call.named.push((name, value));
            proof {
                assert(pair_texts(call.named@) =~= pair_texts(named).push((name@, value@)));
            }
        } else {
            call.positional.push(arg.to_owned());
            proof {
                assert(text::texts(call.positional@) =~= text::texts(positional).push(arg@));
            }
        }
        n = n + 1;
    }
    Some(call)
}

proof fn lemma_s_call_none(args: Seq<Seq<char>>, toks: Seq<Seq<Lexeme>>, n: int)
    requires
        args.len() > 0,
        s_call(args, toks, 1) is None,
    ensures
        s_call(args, toks, n) is None,
    decreases n,
{
    if n > 1 {
        lemma_s_call_none(args, toks, n - 1);
    }
}

/// The parts of an `s!` call in `src`.
pub open spec fn s_call_in(src: Seq<char>) -> Option<SCallView> {
    match call_args(src, lexer::lexemes(src)) {
        Some(args) => s_call(
            args,
            args.map_values(|arg: Seq<char>| lexer::lexemes(arg)),
            args.len() as int,
        ),
        None => None,
    }
}

/// Parses `s!(..)`'s source into its parts; nothing unless the tokens are
/// `ident ! delim literal , args.. delim` with a string literal first.
pub fn parse_s_call(src: &str) -> (r: Option<SCall>)
    requires
        encode_utf8(src@).len() <= i32::MAX,
    ensures
        match r {
            Some(call) => s_call_in(src@) == Some(call@),
            None => s_call_in(src@) is None,
        },
{
    let toks: Vec<Lexeme> = lexer::tokens(src);
    let args: Vec<String> = match split_args(src, &toks) {
        Some(args) => args,
        None => {
            return None;
        },
    };
    let mut lists: Vec<Vec<Lexeme>> = Vec::new();
    let mut i: usize = 0;
    while i < args.len()
        invariant
            i <= args.len(),
            lists.len() == i,
            forall|k: int|
                #![trigger args@[k]]
                0 <= k < args.len() ==> encode_utf8(args@[k]@).len() <= i32::MAX,
            forall|k: int|
                #![trigger args@[k]]
                #![trigger lists@[k]]
                0 <= k < i ==> lexer::placed(args@[k]@, lists@[k]@) && lists@[k]@
                    == lexer::lexemes(args@[k]@),
        decreases args.len() - i,
    {
        lists.push(lexer::tokens(args[i].as_str()));
        i = i + 1;
    }
    proof {
        assert(token_lists(lists@) =~= text::texts(args@).map_values(
            |arg: Seq<char>| lexer::lexemes(arg),
        ));
    }
    parse_s_args(&args, &lists)
}

/// How much deeper in brackets `toks[i]` lies than `toks[from]`.
pub open spec fn level(toks: Seq<Lexeme>, from: int, i: int) -> int
    decreases i - from,
{
    if i <= from {
        0
    } else {
        level(toks, from, i - 1) + (if toks[i - 1].kind is OpenParen || toks[i - 1].kind is OpenBrace
            || toks[i - 1].kind is OpenBracket {
            1int
        } else if toks[i - 1].kind is CloseParen || toks[i - 1].kind is CloseBrace || toks[i
            - 1].kind is CloseBracket {
            -1
        } else {
            0
        })
    }
}

/// `toks[j]` ends an argument of the call whose arguments start at `from`: a
/// comma or a closing bracket that lies in no brackets of its own.
pub open spec fn parts(toks: Seq<Lexeme>, from: int, j: int) -> bool {
    &&& from <= j < toks.len()
    &&& level(toks, from, j) == 0
    &&& toks[j].kind is Comma || toks[j].kind is CloseParen || toks[j].kind is CloseBrace
        || toks[j].kind is CloseBracket
}

proof fn lemma_value_end(toks: Seq<Lexeme>, from: int, i: int, nested: int)
    requires
        0 <= from <= i <= toks.len(),
        nested == level(toks, from, i),
        nested >= 0,
    ensures
        i <= value_end(toks, i, nested) <= toks.len(),
        forall|k: int| i <= k < value_end(toks, i, nested) ==> !parts(toks, from, k),
        value_end(toks, i, nested) < toks.len() ==> parts(
            toks,
            from,
            value_end(toks, i, nested),
        ),
    decreases toks.len() - i,
{
    if i < toks.len() {
        assert(level(toks, from, i + 1) == nested + (if toks[i].kind.opens() {
            1int
        } else if toks[i].kind.closes() {
            -1
        } else {
            0
        }));
        if toks[i].kind.opens() {
            lemma_value_end(toks, from, i + 1, nested + 1);
        } else if toks[i].kind.closes() {
            if nested != 0 {
                lemma_value_end(toks, from, i + 1, nested - 1);
            }
        } else if !(toks[i].kind is Comma && nested == 0) {
            lemma_value_end(toks, from, i + 1, nested);
        }
    }
}

/// The value of a pair runs to the first comma or closing bracket outside its own
/// brackets.
pub proof fn values_end_with_their_argument(toks: Seq<Lexeme>, from: int)
    requires
        0 <= from <= toks.len(),
    ensures
        from <= value_end(toks, from, 0) <= toks.len(),
        forall|k: int| from <= k < value_end(toks, from, 0) ==> !parts(toks, from, k),
        value_end(toks, from, 0) < toks.len() ==> parts(toks, from, value_end(toks, from, 0)),
{
    lemma_value_end(toks, from, from, 0);
}

proof fn lemma_group_end(toks: Seq<Lexeme>, from: int, i: int, depth: int)
    requires
        0 <= from <= i <= toks.len(),
        depth == 1 + level(toks, from, i),
        depth >= 0,
    ensures
        i <= group_end(toks, i, depth) <= toks.len(),
        forall|k: int| i <= k < group_end(toks, i, depth) ==> #[trigger] level(toks, from, k) >= 0,
        group_end(toks, i, depth) < toks.len() ==> level(toks, from, group_end(toks, i, depth))
            == -1,
    decreases toks.len() - i,
{
    if i < toks.len() && depth > 0 {
        assert(level(toks, from, i + 1) == level(toks, from, i) + (if toks[i].kind.opens() {
            1int
        } else if toks[i].kind.closes() {
            -1
        } else {
            0
        }));
        if toks[i].kind.opens() {
            lemma_group_end(toks, from, i + 1, depth + 1);
        } else if toks[i].kind.closes() {
            lemma_group_end(toks, from, i + 1, depth - 1);
        } else {
            lemma_group_end(toks, from, i + 1, depth);
        }
    }
}

/// What stands in brackets is passed over as a whole: up to the bracket that
/// closes the one in front of it, and no further.
pub proof fn groups_end_with_their_bracket(toks: Seq<Lexeme>, from: int)
    requires
        0 <= from <= toks.len(),
    ensures
        from <= group_end(toks, from, 1) <= toks.len(),
        forall|k: int|
            from <= k < group_end(toks, from, 1) ==> #[trigger] level(toks, from, k) >= 0,
        group_end(toks, from, 1) < toks.len() ==> level(toks, from, group_end(toks, from, 1))
            == -1,
{
    lemma_group_end(toks, from, from, 1);
}

/// An argument stands between `toks[l]` and `toks[r]`, two neighbours of those
/// that end an argument or open the list.
pub open spec fn argument_between(
    src: Seq<char>,
    toks: Seq<Lexeme>,
    from: int,
    l: int,
    r: int,
) -> bool {
    &&& l < r
    &&& l == from - 1 || (parts(toks, from, l) && toks[l].kind is Comma)
    &&& parts(toks, from, r)
    &&& forall|m: int| l < m < r ==> !parts(toks, from, m)
    &&& text::trimmed(lexer::slice(src, toks[l].end as int, toks[r].start as int)).len() > 0
}

/// Nothing in front of `toks[r]` closes the list.
pub open spec fn open_upto(toks: Seq<Lexeme>, from: int, r: int) -> bool {
    forall|m: int| from <= m < r && parts(toks, from, m) ==> toks[m].kind is Comma
}

/// `arg` is one of the arguments.
pub open spec fn is_argument(
    src: Seq<char>,
    toks: Seq<Lexeme>,
    from: int,
    arg: Seq<char>,
) -> bool {
    exists|l: int, r: int|
        open_upto(toks, from, r) && #[trigger] argument_between(src, toks, from, l, r) && arg
            == text::trimmed(lexer::slice(src, toks[l].end as int, toks[r].start as int))
}

proof fn lemma_arg_texts(
    src: Seq<char>,
    toks: Seq<Lexeme>,
    from: int,
    left: int,
    i: int,
    depth: int,
    found: Seq<Seq<char>>,
)
    requires
        1 <= from <= i,
        from - 1 <= left < i <= toks.len(),
        left == from - 1 || (parts(toks, from, left) && toks[left].kind is Comma),
        forall|m: int| left < m < i ==> !parts(toks, from, m),
        open_upto(toks, from, i),
        depth == 1 + level(toks, from, i),
        depth >= 1,
    ensures
        arg_texts(src, toks, i, depth, toks[left].end as int, found) matches Some(args) ==> {
            &&& args.len() >= found.len()
            &&& forall|k: int| 0 <= k < found.len() ==> args[k] == found[k]
            &&& forall|k: int|
                found.len() <= k < args.len() ==> is_argument(src, toks, from, #[trigger] args[k])
            &&& forall|l: int, r: int|
                left <= l && open_upto(toks, from, r) && #[trigger] argument_between(
                    src,
                    toks,
                    from,
                    l,
                    r,
                ) ==> args.contains(
                    text::trimmed(lexer::slice(src, toks[l].end as int, toks[r].start as int)),
                )
        },
    decreases toks.len() - i,
{
    if i < toks.len() {
        assert(level(toks, from, i + 1) == level(toks, from, i) + (if toks[i].kind.opens() {
            1int
        } else if toks[i].kind.closes() {
            -1
        } else {
            0
        }));
        if toks[i].kind.opens() {
            assert(!parts(toks, from, i));
            lemma_arg_texts(src, toks, from, left, i + 1, depth + 1, found);
        } else if toks[i].kind.closes() && depth > 1 {
            assert(!parts(toks, from, i));
            lemma_arg_texts(src, toks, from, left, i + 1, depth - 1, found);
        } else {
            let arg = text::trimmed(
                lexer::slice(src, toks[left].end as int, toks[i].start as int),
            );
            let next = push_nonempty(found, arg);
            if toks[i].kind.closes() {
                assert(parts(toks, from, i));
                if arg.len() > 0 {
                    assert(argument_between(src, toks, from, left, i));
                    assert(is_argument(src, toks, from, arg));
                    assert(next[found.len() as int] == arg);
                }
                assert forall|l: int, r: int|
                    left <= l && open_upto(toks, from, r) && #[trigger] argument_between(
                        src,
                        toks,
                        from,
                        l,
                        r,
                    ) implies next.contains(
                    text::trimmed(lexer::slice(src, toks[l].end as int, toks[r].start as int)),
                ) by {
                    assert(r <= i) by {
                        if r > i {
                            assert(parts(toks, from, i));
                        }
                    }
                    assert(l == left);
                    assert(r == i);
                }
            } else if toks[i].kind is Comma && depth == 1 {
                assert(parts(toks, from, i));
                if arg.len() > 0 {
                    assert(argument_between(src, toks, from, left, i));
                    assert(is_argument(src, toks, from, arg));
                    assert(next[found.len() as int] == arg);
                }
                lemma_arg_texts(src, toks, from, i, i + 1, 1, next);
                if let Some(args) = arg_texts(src, toks, i + 1, 1, toks[i].end as int, next) {
                    assert(arg.len() > 0 ==> args[found.len() as int] == arg);
                    assert forall|l: int, r: int|
                        left <= l && open_upto(toks, from, r) && #[trigger] argument_between(
                            src,
                            toks,
                            from,
                            l,
                            r,
                        ) implies args.contains(
                        text::trimmed(
                            lexer::slice(src, toks[l].end as int, toks[r].start as int),
                        ),
                    ) by {
                        if l < i {
                            assert(l == left);
                            assert(r == i) by {
                                if r > i {
                                    assert(parts(toks, from, i));
                                }
                            }
                        }
                    }
                }
            } else {
                assert(!parts(toks, from, i));
                lemma_arg_texts(src, toks, from, left, i + 1, depth, found);
            }
        }
    }
}

/// The arguments of a call are what stands between the commas outside of inner
/// brackets, each without the white space around it: every one is found, and
/// nothing else is.
pub proof fn arguments_stand_between_commas(src: Seq<char>, toks: Seq<Lexeme>, from: int)
    requires
        args_start(toks) == Some(from),
    ensures
        call_args(src, toks) matches Some(args) ==> {
            &&& forall|k: int|
                0 <= k < args.len() ==> is_argument(src, toks, from, #[trigger] args[k])
            &&& forall|l: int, r: int|
                open_upto(toks, from, r) && #[trigger] argument_between(src, toks, from, l, r)
                    ==> args.contains(
                    text::trimmed(lexer::slice(src, toks[l].end as int, toks[r].start as int)),
                )
        },
{
    lemma_first_bang(toks, 0);
    lemma_arg_texts(src, toks, from, from - 1, from, 1, Seq::empty());
}

proof fn lemma_first_bang(toks: Seq<Lexeme>, i: int)
    requires
        0 <= i,
    ensures
        first_bang(toks, i) matches Some(k) ==> i <= k < toks.len() && toks[k].kind is Bang
            && forall|m: int| i <= m < k ==> !((#[trigger] toks[m]).kind is Bang),
        first_bang(toks, i) is None ==> forall|m: int|
            i <= m < toks.len() ==> !((#[trigger] toks[m]).kind is Bang),
    decreases toks.len() - i,
{
    if i < toks.len() {
        lemma_first_bang(toks, i + 1);
    }
}

/// The arguments start behind the bracket that follows the first `!`.
pub proof fn arguments_follow_the_bang(toks: Seq<Lexeme>)
    ensures
        args_start(toks) matches Some(from) ==> {
            &&& 2 <= from <= toks.len()
            &&& toks[from - 2].kind is Bang
            &&& toks[from - 1].kind is OpenParen || toks[from - 1].kind is OpenBrace || toks[from
                - 1].kind is OpenBracket
            &&& forall|m: int| 0 <= m < from - 2 ==> !((#[trigger] toks[m]).kind is Bang)
        },
{
    lemma_first_bang(toks, 0);
}

/// An argument is named where a name and one `=` stand first.
pub open spec fn starts_a_pair(toks: Seq<Lexeme>) -> bool {
    &&& toks.len() >= 2
    &&& toks[0].kind is Ident
    &&& toks[1].kind is Eq
    &&& toks.len() > 2 && toks[2].kind is Eq ==> toks[2].start != toks[1].end
}

/// How many of the arguments behind the template and before `n` are unnamed.
pub open spec fn unnamed_before(toks: Seq<Seq<Lexeme>>, n: int) -> int
    decreases n,
{
    if n <= 1 {
        0
    } else {
        unnamed_before(toks, n - 1) + (if starts_a_pair(toks[n - 1]) {
            0int
        } else {
            1
        })
    }
}

proof fn lemma_s_call(args: Seq<Seq<char>>, toks: Seq<Seq<Lexeme>>, n: int, k: int)
    requires
        1 <= n <= args.len(),
        1 <= k,
    ensures
        s_call(args, toks, n) matches Some(call) ==> {
            &&& lexer::cooked(args[0]) == Some(call.template)
            &&& 0 <= unnamed_before(toks, n) <= n - 1
            &&& call.positional.len() == unnamed_before(toks, n)
            &&& call.named.len() == n - 1 - unnamed_before(toks, n)
            &&& k < n && !starts_a_pair(toks[k]) ==> 0 <= unnamed_before(toks, k)
                < call.positional.len() && call.positional[unnamed_before(toks, k)] == args[k]
            &&& k < n && starts_a_pair(toks[k]) ==> 0 <= k - 1 - unnamed_before(toks, k)
                < call.named.len() && call.named[k - 1 - unnamed_before(toks, k)] == (
                token_text(args[k], toks[k][0]),
                text::trimmed(
                    lexer::slice(
                        args[k],
                        toks[k][1].end as int,
                        encode_utf8(args[k]).len() as int,
                    ),
                ),
            )
        },
    decreases n,
{
    if n > 1 {
        lemma_s_call(args, toks, n - 1, k);
        assert(is_named(toks[n - 1]) == starts_a_pair(toks[n - 1]));
        assert(unnamed_before(toks, n) == unnamed_before(toks, n - 1) + (if starts_a_pair(
            toks[n - 1],
        ) {
            0int
        } else {
            1
        }));
        if let Some(before) = s_call(args, toks, n - 1) {
            let call = with_arg(before, args[n - 1], toks[n - 1]);
            assert(s_call(args, toks, n) == Some(call));
        }
    }
}

/// Every argument behind the template keeps its kind and its place among its kind:
/// an unnamed one as it is written, a named one by its name and what follows the
/// `=`.
pub proof fn arguments_keep_their_kind(
    args: Seq<Seq<char>>,
    toks: Seq<Seq<Lexeme>>,
    call: SCallView,
    k: int,
)
    requires
        s_call(args, toks, args.len() as int) == Some(call),
        1 <= k < args.len(),
    ensures
        lexer::cooked(args[0]) == Some(call.template),
        call.positional.len() + call.named.len() == args.len() - 1,
        !starts_a_pair(toks[k]) ==> 0 <= unnamed_before(toks, k) < call.positional.len()
            && call.positional[unnamed_before(toks, k)] == args[k],
        starts_a_pair(toks[k]) ==> 0 <= k - 1 - unnamed_before(toks, k) < call.named.len()
            && call.named[k - 1 - unnamed_before(toks, k)] == (
            token_text(args[k], toks[k][0]),
            text::trimmed(
                lexer::slice(args[k], toks[k][1].end as int, encode_utf8(args[k]).len() as int),
            ),
        ),
{
    lemma_s_call(args, toks, args.len() as int, k);
}

} // verus!
