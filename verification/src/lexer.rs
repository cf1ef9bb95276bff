//! Source tokens: the lexer's output with trivia dropped, and the cooked value
//! of a string literal.

use ra_ap_rustc_lexer::LiteralKind::{RawStr, Str};
use ra_ap_rustc_lexer::TokenKind;
use ra_ap_rustc_lexer::TokenKind::{
    At, Bang, BlockComment, CloseBrace, CloseBracket, CloseParen, Comma, Ident, LineComment,
    Literal, OpenBrace, OpenBracket, OpenParen, Whitespace,
};
use crate::text;
use ra_ap_rustc_lexer::{tokenize, FrontmatterAllowed};
use vstd::prelude::*;
use vstd::utf8::*;

verus! {

/// The token kinds that matter here; every other kind is `Other`.
#[derive(Clone, Copy, Debug, PartialEq, Eq, Structural)]
pub enum Tok {
    LineComment,
    BlockComment,
    Whitespace,
    Ident,
    Comma,
    Eq,
    Bang,
    At,
    OpenParen,
    OpenBrace,
    OpenBracket,
    CloseParen,
    CloseBrace,
    CloseBracket,
    /// `"..."`; not `terminated` when the closing quote is missing.
    Str { terminated: bool },
    /// `r#"..."#`; no hash count when the literal is invalid.
    RawStr { hashes: Option<u8> },
    Other,
}

/// The tokens of a source text in order, each with its length in bytes.
pub uninterp spec fn lexed(src: Seq<char>) -> Seq<(Tok, u32)>;

/// The total length of the first `n` tokens of `toks`, in bytes.
pub open spec fn offset(toks: Seq<(Tok, u32)>, n: int) -> int
    decreases n,
{
    if n <= 0 {
        0
    } else {
        offset(toks, n - 1) + toks[n - 1].1
    }
}

/// The tokens split `src` at character boundaries and leave nothing over.
pub open spec fn covers(src: Seq<char>, toks: Seq<(Tok, u32)>) -> bool {
    &&& offset(toks, toks.len() as int) == encode_utf8(src).len()
    &&& forall|n: int|
        0 <= n <= toks.len() ==> #[trigger] is_char_boundary(encode_utf8(src), offset(toks, n))
}

/// `rustc_lexer::tokenize` on a piece of a source file (no frontmatter): every
/// token's kind and byte length, in source order. The result depends on the
/// text alone. Together the tokens cover the text without a gap, and each ends
/// where a character ends. The lexer counts positions in 32 bits, and on a text
/// of four gibibytes or more that count can wrap and an overflow check panic:
/// such a text is left out.
#[verifier::external_body]
fn lex(src: &str) -> (r: Vec<(Tok, u32)>)
    requires
        encode_utf8(src@).len() <= u32::MAX,
    ensures
        r@ == lexed(src@),
        covers(src@, r@),
{
    let kind = |kind: TokenKind| match kind {
        LineComment { .. } => Tok::LineComment, BlockComment { .. } => Tok::BlockComment,
        Whitespace => Tok::Whitespace, Ident => Tok::Ident, Comma => Tok::Comma,
        TokenKind::Eq => Tok::Eq, Bang => Tok::Bang, At => Tok::At,
        OpenParen => Tok::OpenParen, OpenBrace => Tok::OpenBrace,
        OpenBracket => Tok::OpenBracket, CloseParen => Tok::CloseParen,
        CloseBrace => Tok::CloseBrace, CloseBracket => Tok::CloseBracket,
        Literal { kind: Str { terminated }, .. } => Tok::Str { terminated },
        Literal { kind: RawStr { n_hashes: hashes }, .. } => Tok::RawStr { hashes },
        _ => Tok::Other,
    };
    tokenize(src, FrontmatterAllowed::No).map(|t| (kind(t.kind), t.len)).collect()
}

/// What unescaping the content of a string literal gives, in order: characters,
/// and errors that are fatal (`true`) or mere warnings (`false`).
pub uninterp spec fn unescaped(content: Seq<char>) -> Seq<Result<char, bool>>;

/// `rustc_literal_escaper::unescape_str` on the content of a string literal
/// (without its quotes): what it hands to its callback, with each error told
/// apart by `EscapeError::is_fatal`. The result depends on the text alone. The
/// digits of a `\u{..}` are counted in an `i32`, which a text of two gibibytes
/// or more can overflow: such a text is left out.
#[verifier::external_body]
fn unescape_units(content: &str) -> (r: Vec<Result<char, bool>>)
    requires
        encode_utf8(content@).len() <= i32::MAX,
    ensures
        r@ == unescaped(content@),
{
    let mut units = Vec::new();
    rustc_literal_escaper::unescape_str(content, |_, unit| units.push(unit.map_err(|e| e.is_fatal())));
    units
}

/// The part of `s` from byte `from` up to byte `to`.
pub open spec fn slice(s: Seq<char>, from: int, to: int) -> Seq<char> {
    decode_utf8(encode_utf8(s).subrange(from, to))
}

/// `from..to` is a range of `s` in bytes that splits no character.
pub open spec fn sliceable(s: Seq<char>, from: int, to: int) -> bool {
    &&& 0 <= from <= to <= encode_utf8(s).len()
    &&& is_char_boundary(encode_utf8(s), from)
    &&& is_char_boundary(encode_utf8(s), to)
}

/// The part of `s` from byte `from` up to byte `to`.
pub fn str_slice<'a>(s: &'a str, from: usize, to: usize) -> (r: &'a str)
    requires
        sliceable(s@, from as int, to as int),
    ensures
        r@ == slice(s@, from as int, to as int),
        encode_utf8(r@).len() == to - from,
{
    proof {
        let bytes = encode_utf8(s@);
        encode_utf8_valid_utf8(s@);
        encode_utf8_decode_utf8(s@);
        valid_utf8_split(bytes, to as int);
        let head = bytes.subrange(0, to as int);
        if from < to {
            is_char_boundary_iff_not_is_continuation_byte(bytes, from as int);
            is_char_boundary_iff_not_is_continuation_byte(head, from as int);
            assert(head[from as int] == bytes[from as int]);
        } else {
            is_char_boundary_start_end_of_seq(head);
        }
    }
    let (head, _) = s.split_at(to);
    proof {
        encode_utf8_decode_utf8(head@);
    }
    let (_, mid) = head.split_at(from);
    proof {
        encode_utf8_decode_utf8(mid@);
        assert(encode_utf8(s@).subrange(0, to as int).subrange(from as int, to as int)
            =~= encode_utf8(s@).subrange(from as int, to as int));
    }
    mid
}

/// A token's kind with its byte range in the source.
#[derive(Clone, Copy, Debug, PartialEq, Eq, Structural)]
pub struct Lexeme {
    pub kind: Tok,
    pub start: usize,
    pub end: usize,
}

/// Comments and white space.
pub open spec fn trivia(kind: Tok) -> bool {
    kind is LineComment || kind is BlockComment || kind is Whitespace
}

/// The tokens that are no trivia among the first `n`, with their places.
pub open spec fn significant(toks: Seq<(Tok, u32)>, n: int) -> Seq<Lexeme>
    decreases n,
{
    if n <= 0 {
        Seq::empty()
    } else if trivia(toks[n - 1].0) {
        significant(toks, n - 1)
    } else {
        significant(toks, n - 1).push(
            Lexeme {
                kind: toks[n - 1].0,
                start: offset(toks, n - 1) as usize,
                end: offset(toks, n) as usize,
            },
        )
    }
}

/// The tokens of `src` that are no trivia.
pub open spec fn lexemes(src: Seq<char>) -> Seq<Lexeme> {
    significant(lexed(src), lexed(src).len() as int)
}

/// `toks` lie in `src` one after the other, and none splits a character.
pub open spec fn placed(src: Seq<char>, toks: Seq<Lexeme>) -> bool {
    &&& forall|i: int|
        #![trigger toks[i]]
        0 <= i < toks.len() ==> sliceable(src, toks[i].start as int, toks[i].end as int)
    &&& forall|i: int, j: int|
        #![trigger toks[i], toks[j]]
        0 <= i < j < toks.len() ==> toks[i].end <= toks[j].start
}

proof fn lemma_offset_monotonic(toks: Seq<(Tok, u32)>, i: int, j: int)
    requires
        i <= j,
    ensures
        0 <= offset(toks, i) <= offset(toks, j),
    decreases j,
{
    if j <= 0 {
    } else if i < j {
        lemma_offset_monotonic(toks, i, j - 1);
    } else {
        lemma_offset_monotonic(toks, i - 1, j - 1);
    }
}

/// The tokens of `src` that are no trivia, with their byte ranges.
pub fn tokens(src: &str) -> (r: Vec<Lexeme>)
    requires
        encode_utf8(src@).len() <= u32::MAX,
    ensures
        r@ == lexemes(src@),
        placed(src@, r@),
{
    let toks: Vec<(Tok, u32)> = lex(src);
    let mut out: Vec<Lexeme> = Vec::new();
    let mut pos: usize = 0;
    let mut i: usize = 0;
    while i < toks.len()
        invariant
            i <= toks.len(),
            toks@ == lexed(src@),
            covers(src@, toks@),
            encode_utf8(src@).len() <= u32::MAX,
            pos == offset(toks@, i as int),
            out@ == significant(toks@, i as int),
            placed(src@, out@),
            forall|k: int| 0 <= k < out.len() ==> #[trigger] out@[k].end <= pos,
        decreases toks.len() - i,
    {
        proof {
            lemma_offset_monotonic(toks@, i as int, i + 1);
            lemma_offset_monotonic(toks@, i + 1, toks.len() as int);
            assert(is_char_boundary(encode_utf8(src@), offset(toks@, i as int)));
            assert(is_char_boundary(encode_utf8(src@), offset(toks@, i + 1)));
        }
        let (kind, len) = toks[i];
        let start: usize = pos;
        pos = pos + len as usize;
        let skip = match kind {
            Tok::LineComment | Tok::BlockComment | Tok::Whitespace => true,
            _ => false,
        };
        if !skip {
            out.push(Lexeme { kind, start, end: pos });
        }
        i = i + 1;
    }
    out
}

/// Whether `src` holds a comment.
pub open spec fn has_comment(src: Seq<char>) -> bool {
    exists|i: int|
        0 <= i < lexed(src).len() && (#[trigger] lexed(src)[i].0 is LineComment
            || lexed(src)[i].0 is BlockComment)
}

/// Whether `src` holds a comment.
pub fn contains_comment(src: &str) -> (r: bool)
    requires
        encode_utf8(src@).len() <= u32::MAX,
    ensures
        r == has_comment(src@),
{
    let toks: Vec<(Tok, u32)> = lex(src);
    let mut i: usize = 0;
    while i < toks.len()
        invariant
            i <= toks.len(),
            toks@ == lexed(src@),
            forall|k: int|
                0 <= k < i ==> !(#[trigger] toks@[k].0 is LineComment)
                    && !(toks@[k].0 is BlockComment),
        decreases toks.len() - i,
    {
        match toks[i].0 {
            Tok::LineComment | Tok::BlockComment => {
                return true;
            },
            _ => {},
        }
        i = i + 1;
    }
    false
}

/// The value of a literal's content given what unescaping it produced: its
/// characters, unless one of the errors is fatal.
pub open spec fn cook(units: Seq<Result<char, bool>>) -> Option<Seq<char>>
    decreases units.len(),
{
    if units.len() == 0 {
        Some(Seq::empty())
    } else {
        match (cook(units.drop_last()), units.last()) {
            (Some(text), Ok(c)) => Some(text.push(c)),
            (Some(text), Err(fatal)) => if fatal {
                None
            } else {
                Some(text)
            },
            (None, _) => None,
        }
    }
}

/// The value of a literal's content given what unescaping it produced.
pub fn cook_units(units: &Vec<Result<char, bool>>) -> (r: Option<String>)
    ensures
        text::text_opt(r) == cook(units@),
{
    let mut out: String = String::new();
    let mut ok: bool = true;
    let mut i: usize = 0;
    proof {
        assert(units@.take(0) =~= Seq::empty());
    }
    while i < units.len()
        invariant
            i <= units.len(),
            cook(units@.take(i as int)) == (if ok {
                Some(out@)
            } else {
                None
            }),
        decreases units.len() - i,
    {
        proof {
            assert(units@.take(i + 1).drop_last() =~= units@.take(i as int));
        }
        match units[i] {
            Ok(c) => {
                out.push(c);
            },
            Err(fatal) => {
                if fatal {
                    ok = false;
                }
            },
        }
        i = i + 1;
    }
    proof {
        assert(units@.take(units.len() as int) =~= units@);
    }
    if ok {
        Some(out)
    } else {
        None
    }
}

/// How many `#` the text starts with.
pub open spec fn hashes(text: Seq<char>) -> nat
    decreases text.len(),
{
    if text.len() > 0 && text[0] == '#' {
        1 + hashes(text.skip(1))
    } else {
        0
    }
}

/// The cooked value of a string literal, written `".."` or `r#".."#`.
///
/// Of a raw literal it is the text between the hashes and the quotes. Of any
/// other it is the text between the quotes with its escapes resolved.
pub open spec fn cooked(text: Seq<char>) -> Option<Seq<char>> {
    if text.len() > 0 && text[0] == 'r' {
        let rest = text.skip(1);
        let from = hashes(rest) + 1;
        let to = encode_utf8(rest).len() - hashes(rest) - 1;
        if sliceable(rest, from as int, to) {
            Some(slice(rest, from as int, to))
        } else {
            None
        }
    } else if text.len() >= 2 && text[0] == '"' && text.last() == '"' {
        let content = text.subrange(1, text.len() - 1);
        if content.contains('\\') {
            cook(unescaped(content))
        } else {
            Some(content)
        }
    } else {
        None
    }
}

/// The part of `s` from byte `from` up to byte `to`, where there is one.
pub fn str_get<'a>(s: &'a str, from: usize, to: usize) -> (r: Option<&'a str>)
    ensures
        match r {
            Some(part) => {
                &&& sliceable(s@, from as int, to as int)
                &&& part@ == slice(s@, from as int, to as int)
                &&& encode_utf8(part@).len() == to - from
            },
            None => !sliceable(s@, from as int, to as int),
        },
{
    proof {
        encode_utf8_valid_utf8(s@);
        is_char_boundary_start_end_of_seq(encode_utf8(s@));
    }
    if from <= to && to <= s.as_bytes().len() && s.is_char_boundary(from) && s.is_char_boundary(to) {
        Some(str_slice(s, from, to))
    } else {
        None
    }
}

proof fn lemma_hashes_count(text: Seq<char>, n: int)
    requires
        0 <= n <= text.len(),
        forall|i: int| 0 <= i < n ==> text[i] == '#',
        n < text.len() ==> text[n] != '#',
    ensures
        hashes(text) == n,
    decreases text.len(),
{
    if n > 0 {
        assert forall|i: int| 0 <= i < n - 1 implies text.skip(1)[i] == '#' by {
            assert(text[i + 1] == '#');
        }
        lemma_hashes_count(text.skip(1), n - 1);
    }
}

/// The cooked value of a `".."` or `r#".."#` literal; nothing for a text of
/// another shape or with an escape that is not valid.
pub fn unescape_str(literal: &str) -> (r: Option<String>)
    requires
        encode_utf8(literal@).len() <= i32::MAX,
    ensures
        text::text_opt(r) == cooked(literal@),
{
    let cs: Vec<char> = text::chars(literal);
    if cs.len() > 0 && cs[0] == 'r' {
        let rest: String = text::string_of(&cs, 1, cs.len());
        let mut count: usize = 0;
        while 1 + count < cs.len() && cs[1 + count] == '#'
            invariant
                1 + count <= cs.len(),
                cs.len() > 0,
                forall|i: int| 1 <= i < 1 + count ==> #[trigger] cs@[i] == '#',
            decreases cs.len() - count,
        {
            count = count + 1;
        }
        proof {
            assert(rest@ =~= literal@.skip(1));
            lemma_hashes_count(rest@, count as int);
        }
        let len: usize = rest.as_str().as_bytes().len();
        if len < count || len - count < 1 {
            return None;
        }
        let from: usize = count + 1;
        let to: usize = len - count - 1;
        return match str_get(rest.as_str(), from, to) {
            Some(content) => Some(content.to_owned()),
            None => None,
        };
    }
    if cs.len() >= 2 && cs[0] == '"' && cs[cs.len() - 1] == '"' {
        let content: String = text::string_of(&cs, 1, cs.len() - 1);
        let mut i: usize = 1;
        let mut escaped: bool = false;
        while i < cs.len() - 1
            invariant
                1 <= i <= cs.len() - 1,
                content@ == cs@.subrange(1, cs.len() - 1),
                escaped == (exists|k: int| 1 <= k < i && #[trigger] cs@[k] == '\\'),
            decreases cs.len() - i,
        {
            if cs[i] == '\\' {
                escaped = true;
            }
            i = i + 1;
        }
        proof {
            if escaped {
                let k = choose|k: int| 1 <= k < i && #[trigger] cs@[k] == '\\';
                assert(content@[k - 1] == '\\');
            } else if content@.contains('\\') {
                let k = choose|k: int| 0 <= k < content@.len() && content@[k] == '\\';
                assert(cs@[k + 1] == '\\');
            }
        }
        proof {
            text::lemma_drop_last_bytes(literal@.drop_first());
            assert(content@ =~= literal@.drop_first().drop_last());
        }
        if escaped {
            cook_units(&unescape_units(content.as_str()))
        } else {
            Some(content)
        }
    } else {
        None
    }
}

/// Every token that is no white space and no comment is a lexeme, with the bytes
/// that it stands at, and no other is.
pub proof fn lexemes_are_the_significant_tokens(toks: Seq<(Tok, u32)>, n: int, k: int, lexeme: Lexeme)
    requires
        0 <= n <= toks.len(),
        offset(toks, n) <= usize::MAX,
    ensures
        0 <= k < n && !(toks[k].0 is LineComment || toks[k].0 is BlockComment
            || toks[k].0 is Whitespace) ==> significant(toks, n).contains(
            Lexeme {
                kind: toks[k].0,
                start: offset(toks, k) as usize,
                end: offset(toks, k + 1) as usize,
            },
        ),
        significant(toks, n).contains(lexeme) ==> exists|i: int|
            {
                &&& 0 <= i < n
                &&& lexeme.kind == (#[trigger] toks[i]).0
                &&& lexeme.start == offset(toks, i) as usize
                &&& lexeme.end == offset(toks, i + 1) as usize
                &&& !(toks[i].0 is LineComment || toks[i].0 is BlockComment
                    || toks[i].0 is Whitespace)
            },
    decreases n,
{
    if n > 0 {
        lexemes_are_the_significant_tokens(toks, n - 1, k, lexeme);
        let all = significant(toks, n);
        let rest = significant(toks, n - 1);
        if 0 <= k < n && !trivia(toks[k].0) {
            let found = Lexeme {
                kind: toks[k].0,
                start: offset(toks, k) as usize,
                end: offset(toks, k + 1) as usize,
            };
            if k < n - 1 {
                let i = choose|i: int| 0 <= i < rest.len() && rest[i] == found;
                assert(all[i] == found);
            } else {
                assert(all[rest.len() as int] == found);
            }
        }
        if all.contains(lexeme) {
            let i = choose|i: int| 0 <= i < all.len() && all[i] == lexeme;
            if i < rest.len() {
                assert(rest[i] == lexeme);
                assert(rest.contains(lexeme));
            } else {
                assert(lexeme.kind == toks[n - 1].0);
            }
        }
    }
}

proof fn lemma_encode_concat(a: Seq<char>, b: Seq<char>)
    ensures
        encode_utf8(a + b) == encode_utf8(a) + encode_utf8(b),
        is_char_boundary(encode_utf8(a + b), encode_utf8(a).len() as int),
    decreases a.len(),
{
    encode_utf8_valid_utf8(a + b);
    if a.len() == 0 {
        assert(a + b =~= b);
    } else {
        let rest = a.drop_first();
        lemma_encode_concat(rest, b);
        assert((a + b).drop_first() =~= rest + b);
        encode_utf8_first_scalar(a + b);
        assert(pop_first_scalar(encode_utf8(a + b)) =~= encode_utf8(rest + b));
        assert(encode_utf8(a + b) =~= encode_utf8(a) + encode_utf8(b));
    }
}

/// The piece of a text between two byte positions is what stands there.
pub proof fn slices_are_what_stands_there(a: Seq<char>, b: Seq<char>, c: Seq<char>)
    ensures
        ({
            let from = encode_utf8(a).len() as int;
            let to = from + encode_utf8(b).len();
            sliceable(a + b + c, from, to) && slice(a + b + c, from, to) == b
        }),
{
    lemma_encode_concat(a + b, c);
    lemma_encode_concat(a, b);
    lemma_encode_concat(a, b + c);
    assert(a + b + c =~= a + (b + c));
    let from = encode_utf8(a).len() as int;
    let to = from + encode_utf8(b).len();
    assert(encode_utf8(a + b + c).subrange(from, to) =~= encode_utf8(b));
    encode_utf8_decode_utf8(b);
}

/// `n` marks of a raw literal.
pub open spec fn marks(n: nat) -> Seq<char> {
    Seq::new(n, |i: int| '#')
}

proof fn lemma_marks(n: nat, rest: Seq<char>)
    requires
        rest.len() > 0,
        rest[0] != '#',
    ensures
        hashes(marks(n) + rest) == n,
    decreases n,
{
    if n == 0 {
        assert(marks(n) + rest =~= rest);
    } else {
        lemma_marks((n - 1) as nat, rest);
        assert((marks(n) + rest).skip(1) =~= marks((n - 1) as nat) + rest);
    }
}

/// A raw literal means what stands between its quotes, however many marks it has.
pub proof fn raw_literals_mean_their_content(content: Seq<char>, n: nat)
    ensures
        cooked(seq!['r'] + marks(n) + seq!['"'] + content + seq!['"'] + marks(n)) == Some(content),
{
    let text = seq!['r'] + marks(n) + seq!['"'] + content + seq!['"'] + marks(n);
    let front = marks(n) + seq!['"'];
    let back = seq!['"'] + marks(n);
    let rest = text.skip(1);
    assert(rest =~= front + content + back);
    assert(rest =~= marks(n) + (seq!['"'] + content + back));
    lemma_marks(n, seq!['"'] + content + back);
    slices_are_what_stands_there(front, content, back);
    lemma_encode_concat(front + content, back);
    lemma_encode_concat(front, content);
    assert(is_ascii_chars(front));
    assert(is_ascii_chars(back));
    is_ascii_chars_encode_utf8(front);
    is_ascii_chars_encode_utf8(back);
}

/// A literal without escapes means what stands between its quotes.
pub proof fn plain_literals_mean_their_content(content: Seq<char>)
    requires
        !content.contains('\\'),
    ensures
        cooked(seq!['"'] + content + seq!['"']) == Some(content),
{
    let text = seq!['"'] + content + seq!['"'];
    assert(text.subrange(1, text.len() - 1) =~= content);
}

/// Where every unit of a literal stands for a character the literal means those
/// characters in turn; one that stands for none and is no mere warning leaves
/// nothing of it.
pub proof fn units_give_their_characters(units: Seq<Result<char, bool>>, k: int)
    ensures
        (forall|i: int| 0 <= i < units.len() ==> (#[trigger] units[i]) is Ok) ==> (cook(
            units,
        ) matches Some(text) && text.len() == units.len() && forall|i: int|
            0 <= i < units.len() ==> units[i] == Ok::<char, bool>(#[trigger] text[i])),
        0 <= k < units.len() && units[k] == Err::<char, bool>(true) ==> cook(units) is None,
    decreases units.len(),
{
    if units.len() > 0 {
        let front = units.drop_last();
        units_give_their_characters(front, k);
        if forall|i: int| 0 <= i < units.len() ==> (#[trigger] units[i]) is Ok {
            assert forall|i: int| 0 <= i < front.len() implies (#[trigger] front[i]) is Ok by {
                assert(front[i] == units[i]);
            }
            let text = cook(front)->0;
            assert(units.last() is Ok);
            let whole = cook(units)->0;
            assert forall|i: int| 0 <= i < units.len() implies units[i] == Ok::<char, bool>(
                #[trigger] whole[i],
            ) by {
                if i < front.len() {
                    assert(whole[i] == text[i]);
                    assert(front[i] == units[i]);
                }
            }
        }
    }
}

/// Two adjacent pieces of a text make up the piece over both.
pub proof fn adjacent_slices_join(s: Seq<char>, from: int, mid: int, to: int)
    requires
        sliceable(s, from, mid),
        sliceable(s, mid, to),
    ensures
        sliceable(s, from, to),
        slice(s, from, to) == slice(s, from, mid) + slice(s, mid, to),
{
    let bytes = encode_utf8(s);
    encode_utf8_valid_utf8(s);
    let b = slice(s, from, mid);
    let c = slice(s, mid, to);
    lemma_piece(bytes, from, mid);
    lemma_piece(bytes, mid, to);
    lemma_encode_concat(b, c);
    assert(bytes.subrange(from, to) =~= encode_utf8(b) + encode_utf8(c));
    encode_utf8_decode_utf8(b + c);
}

proof fn lemma_piece(bytes: Seq<u8>, from: int, to: int)
    requires
        valid_utf8(bytes),
        0 <= from <= to <= bytes.len(),
        is_char_boundary(bytes, from),
        is_char_boundary(bytes, to),
    ensures
        encode_utf8(decode_utf8(bytes.subrange(from, to))) == bytes.subrange(from, to),
{
    valid_utf8_split(bytes, to);
    let front = bytes.subrange(0, to);
    lemma_boundary_of_front(bytes, from, to);
    valid_utf8_split(front, from);
    assert(front.subrange(from, front.len() as int) =~= bytes.subrange(from, to));
    decode_utf8_encode_utf8(bytes.subrange(from, to));
}

proof fn lemma_boundary_of_front(bytes: Seq<u8>, at: int, to: int)
    requires
        valid_utf8(bytes),
        0 <= at <= to <= bytes.len(),
        is_char_boundary(bytes, at),
        is_char_boundary(bytes, to),
    ensures
        valid_utf8(bytes.subrange(0, to)),
        is_char_boundary(bytes.subrange(0, to), at),
{
    valid_utf8_split(bytes, to);
    let front = bytes.subrange(0, to);
    if at == to {
        is_char_boundary_start_end_of_seq(front);
    } else {
        is_char_boundary_iff_not_is_continuation_byte(bytes, at);
        is_char_boundary_iff_not_is_continuation_byte(front, at);
        assert(front[at] == bytes[at]);
    }
}

} // verus!
