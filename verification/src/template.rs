//! Format templates: a cooked literal split into its text and placeholders, and
//! the `text!` call written from one.

use crate::format_args;
use crate::text;
use vstd::prelude::*;

verus! {

/// One piece of a `text!`/`format!` literal; brace escapes are already folded
/// into the text.
#[derive(Debug)]
pub enum Piece {
    Literal(String),
    /// `{name}` or `{name:spec}`; `spec` begins with the `:`.
    Placeholder { name: String, spec: String },
}

/// What a piece of a template is.
#[verifier::ext_equal]
pub ghost enum PieceView {
    Literal(Seq<char>),
    Placeholder { name: Seq<char>, spec: Seq<char> },
}

impl View for Piece {
    type V = PieceView;

    open spec fn view(&self) -> PieceView {
        match *self {
            Piece::Literal(text) => PieceView::Literal(text@),
            Piece::Placeholder { name, spec } => PieceView::Placeholder { name: name@, spec: spec@ },
        }
    }
}

pub open spec fn piece_views(pieces: Seq<Piece>) -> Seq<PieceView> {
    pieces.map_values(|piece: Piece| piece@)
}

/// A literal piece, unless the text is empty.
pub open spec fn literal(text: Seq<char>) -> Seq<PieceView> {
    if text.len() == 0 {
        seq![]
    } else {
        seq![PieceView::Literal(text)]
    }
}

/// Where the first `c` of `s` stands at or after `i`.
pub open spec fn next_char(s: Seq<char>, c: char, i: int) -> Option<int>
    decreases s.len() - i,
{
    if i < 0 || i >= s.len() {
        None
    } else if s[i] == c {
        Some(i)
    } else {
        next_char(s, c, i + 1)
    }
}

/// The placeholder that stands between braces: the name up to the first `:`,
/// without white space at its ends, and the rest.
pub open spec fn placeholder(content: Seq<char>) -> PieceView {
    match next_char(content, ':', 0) {
        Some(i) => PieceView::Placeholder {
            name: text::trimmed(content.take(i)),
            spec: content.skip(i),
        },
        None => PieceView::Placeholder { name: text::trimmed(content), spec: seq![] },
    }
}

/// The pieces of the template `s`, with `text` read before it.
///
/// A doubled brace is a brace. Any other `{` opens a placeholder that the next
/// `}` closes; where none does, the rest is text.
pub open spec fn split_template(s: Seq<char>, text: Seq<char>) -> Seq<PieceView>
    decreases s.len(),
{
    if s.len() == 0 {
        literal(text)
    } else if s.len() > 1 && s[0] == '{' && s[1] == '{' {
        split_template(s.skip(2), text.push('{'))
    } else if s.len() > 1 && s[0] == '}' && s[1] == '}' {
        split_template(s.skip(2), text.push('}'))
    } else if s[0] == '{' {
        match next_char(s, '}', 1) {
            Some(end) => if 1 <= end < s.len() {
                literal(text) + seq![placeholder(s.subrange(1, end))] + split_template(
                    s.skip(end + 1),
                    seq![],
                )
            } else {
                literal(text + s)
            },
            None => literal(text + s),
        }
    } else {
        split_template(s.skip(1), text.push(s[0]))
    }
}

proof fn lemma_next_char(s: Seq<char>, c: char, i: int)
    requires
        0 <= i,
    ensures
        match next_char(s, c, i) {
            Some(k) => i <= k < s.len() && s[k] == c && forall|j: int| i <= j < k ==> s[j] != c,
            None => forall|j: int| i <= j < s.len() ==> s[j] != c,
        },
    decreases s.len() - i,
{
    if i < s.len() && s[i] != c {
        lemma_next_char(s, c, i + 1);
    }
}

fn find_char(s: &Vec<char>, c: char, from: usize) -> (r: Option<usize>)
    requires
        from <= s.len(),
    ensures
        match r {
            Some(i) => next_char(s@, c, from as int) == Some(i as int) && from <= i < s.len(),
            None => next_char(s@, c, from as int) is None,
        },
{
    let mut i: usize = from;
    while i < s.len()
        invariant
            from <= i <= s.len(),
            next_char(s@, c, from as int) == next_char(s@, c, i as int),
        decreases s.len() - i,
    {
        if s[i] == c {
            return Some(i);
        }
        i = i + 1;
    }
    None
}

fn read_placeholder(content: &Vec<char>) -> (r: Piece)
    ensures
        r@ == placeholder(content@),
{
    match find_char(content, ':', 0) {
        Some(i) => {
            let name: String = text::string_of(content, 0, i);
            let rest: String = text::string_of(content, i, content.len());
            proof {
                assert(name@ =~= content@.take(i as int));
                assert(rest@ =~= content@.skip(i as int));
            }
            Piece::Placeholder { name: text::trim(name.as_str()), spec: rest }
        },
        None => {
            let name: String = text::string_of(content, 0, content.len());
            proof {
                assert(name@ =~= content@);
            }
            Piece::Placeholder { name: text::trim(name.as_str()), spec: String::new() }
        },
    }
}

fn push_literal(pieces: &mut Vec<Piece>, text: String)
    ensures
        piece_views(final(pieces)@) == piece_views(old(pieces)@) + literal(text@),
{
    let ghost before = pieces@;
    if !text.as_str().is_empty() {
        pieces.push(Piece::Literal(text));
        proof {
            assert(piece_views(pieces@) =~= piece_views(before) + literal(text@));
        }
    } else {
        proof {
            assert(piece_views(before) + literal(text@) =~= piece_views(before));
        }
    }
}

proof fn lemma_next_char_shift(s: Seq<char>, c: char, from: int, i: int)
    requires
        0 <= from <= s.len(),
        0 <= i,
    ensures
        next_char(s.skip(from), c, i) == (match next_char(s, c, from + i) {
            Some(k) => Some(k - from),
            None => None,
        }),
    decreases s.len() - from - i,
{
    if from + i < s.len() {
        assert(s.skip(from)[i] == s[from + i]);
        if s[from + i] != c {
            lemma_next_char_shift(s, c, from, i + 1);
        }
    }
}

/// Splits a cooked format literal into literals and `{..}` placeholders.
pub fn text_pieces(template: &str) -> (r: Vec<Piece>)
    ensures
        piece_views(r@) == split_template(template@, seq![]),
{
    let cs: Vec<char> = text::chars(template);
    let mut pieces: Vec<Piece> = Vec::new();
    let mut text: String = String::new();
    let mut i: usize = 0;
    proof {
        assert(cs@.skip(0) =~= template@);
        assert(text@ =~= seq![]);
        let all = split_template(template@, seq![]);
        assert(piece_views(pieces@) + all =~= all);
    }
    while i < cs.len()
        invariant
            i <= cs.len(),
            cs@ == template@,
            piece_views(pieces@) + split_template(cs@.skip(i as int), text@) == split_template(
                template@,
                seq![],
            ),
        decreases cs.len() - i,
    {
        let ghost rest = cs@.skip(i as int);
        let ghost prior = piece_views(pieces@);
        let c: char = cs[i];
        proof {
            assert(rest[0] == c);
            if i + 1 < cs.len() {
                assert(rest[1] == cs@[i + 1]);
            }
        }
        if i + 1 < cs.len() && c == '{' && cs[i + 1] == '{' {
            text.push('{');
            proof {
                assert(rest.skip(2) =~= cs@.skip(i + 2));
            }
            i = i + 2;
        } else if i + 1 < cs.len() && c == '}' && cs[i + 1] == '}' {
            text.push('}');
            proof {
                assert(rest.skip(2) =~= cs@.skip(i + 2));
            }
            i = i + 2;
        } else if c == '{' {
            proof {
                lemma_next_char_shift(cs@, '}', i as int, 1);
            }
            match find_char(&cs, '}', i + 1) {
                Some(end) => {
                    let mut content: Vec<char> = Vec::new();
                    let mut k: usize = i + 1;
                    while k < end
                        invariant
                            i + 1 <= k <= end < cs.len(),
                            content@ == cs@.subrange(i + 1, k as int),
                        decreases end - k,
                    {
                        content.push(cs[k]);
                        proof {
                            assert(cs@.subrange(i + 1, k + 1) =~= cs@.subrange(
                                i + 1,
                                k as int,
                            ).push(cs@[k as int]));
                        }
                        k = k + 1;
                    }
                    let ghost read = text@;
                    push_literal(&mut pieces, text);
                    text = String::new();
                    let piece: Piece = read_placeholder(&content);
                    let ghost mid = pieces@;
                    pieces.push(piece);
                    proof {
                        assert(rest.subrange(1, end - i) =~= content@);
                        assert(rest.skip(end - i + 1) =~= cs@.skip(end + 1));
                        assert(piece_views(pieces@) =~= piece_views(mid).push(piece@));
                        assert(text@ =~= seq![]);
                        let tail = split_template(cs@.skip(end + 1), seq![]);
                        assert(piece_views(pieces@) + tail =~= prior + (literal(read) + seq![
                            placeholder(content@),
                        ] + tail));
                    }
                    i = end + 1;
                },
                None => {
                    let open: String = text::string_of(&cs, i, cs.len());
                    proof {
                        assert(open@ =~= rest);
                    }
                    text.append(open.as_str());
                    push_literal(&mut pieces, text);
                    return pieces;
                },
            }
        } else {
            text.push(c);
            proof {
                assert(rest.skip(1) =~= cs@.skip(i + 1));
            }
            i = i + 1;
        }
    }
    push_literal(&mut pieces, text);
    pieces
}

/// A piece as it stands in a template.
pub open spec fn written_piece(piece: PieceView) -> Seq<char> {
    match piece {
        PieceView::Literal(text) => format_args::escaped(text),
        PieceView::Placeholder { name, spec } => seq!['{'] + name + spec + seq!['}'],
    }
}

/// The template that the pieces make up.
pub open spec fn written(pieces: Seq<PieceView>) -> Seq<char>
    decreases pieces.len(),
{
    if pieces.len() == 0 {
        seq![]
    } else {
        written_piece(pieces[0]) + written(pieces.skip(1))
    }
}

/// A piece that can be read back: a text that is not empty, or a placeholder
/// whose name does not begin with `{`, has no white space at its ends and no `}`
/// or `:` in it, and whose spec is empty or begins with `:` and closes no brace.
pub open spec fn readable(piece: PieceView) -> bool {
    match piece {
        PieceView::Literal(text) => text.len() > 0,
        PieceView::Placeholder { name, spec } => {
            &&& name.len() > 0 ==> name[0] != '{'
            &&& text::trimmed(name) == name
            &&& forall|i: int| 0 <= i < name.len() ==> #[trigger] name[i] != '}' && name[i] != ':'
            &&& spec.len() > 0 ==> spec[0] == ':'
            &&& forall|i: int| 0 <= i < spec.len() ==> #[trigger] spec[i] != '}'
        },
    }
}

/// The pieces can be read back, and no two texts stand side by side.
pub open spec fn all_readable(pieces: Seq<PieceView>) -> bool {
    &&& forall|i: int| 0 <= i < pieces.len() ==> readable(#[trigger] pieces[i])
    &&& forall|i: int|
        0 <= i < pieces.len() - 1 ==> !(#[trigger] pieces[i] is Literal && pieces[i
            + 1] is Literal)
}

proof fn lemma_escaped_front(text: Seq<char>)
    requires
        text.len() > 0,
    ensures
        format_args::escaped(text) == format_args::escaped_char(text[0]) + format_args::escaped(
            text.skip(1),
        ),
    decreases text.len(),
{
    if text.len() == 1 {
        assert(text.drop_last() =~= seq![]);
        assert(text.skip(1) =~= seq![]);
        let one = format_args::escaped_char(text[0]);
        assert(format_args::escaped(seq![]) + one =~= one + format_args::escaped(seq![]));
    } else {
        lemma_escaped_front(text.drop_last());
        assert(text.drop_last().skip(1) =~= text.skip(1).drop_last());
        assert(text.skip(1).last() == text.last());
        let a = format_args::escaped_char(text[0]);
        let b = format_args::escaped(text.skip(1).drop_last());
        let c = format_args::escaped_char(text.last());
        assert((a + b) + c =~= a + (b + c));
    }
}

/// Escaped text in front of a template reads as that text: what comes before
/// and after it reads as it would without it.
pub proof fn escaped_text_reads_back(text: Seq<char>, rest: Seq<char>, before: Seq<char>)
    ensures
        split_template(format_args::escaped(text) + rest, before) == split_template(
            rest,
            before + text,
        ),
    decreases text.len(),
{
    if text.len() == 0 {
        assert(format_args::escaped(text) + rest =~= rest);
        assert(before + text =~= before);
    } else {
        let c = text[0];
        let tail = text.skip(1);
        lemma_escaped_front(text);
        let whole = format_args::escaped(text) + rest;
        let left = format_args::escaped(tail) + rest;
        assert(whole =~= format_args::escaped_char(c) + left);
        escaped_text_reads_back(tail, rest, before.push(c));
        assert(before.push(c) + tail =~= before + text);
        if c == '{' || c == '}' {
            assert(whole[0] == c && whole[1] == c);
            assert(whole.skip(2) =~= left);
        } else {
            assert(whole[0] == c);
            assert(whole.skip(1) =~= left);
        }
    }
}

proof fn lemma_next_char_at(s: Seq<char>, c: char, i: int, k: int)
    requires
        0 <= i <= k < s.len(),
        s[k] == c,
        forall|j: int| i <= j < k ==> #[trigger] s[j] != c,
    ensures
        next_char(s, c, i) == Some(k),
    decreases k - i,
{
    if i < k {
        lemma_next_char_at(s, c, i + 1, k);
    }
}

proof fn lemma_next_char_none(s: Seq<char>, c: char, i: int)
    requires
        0 <= i,
        forall|j: int| i <= j < s.len() ==> #[trigger] s[j] != c,
    ensures
        next_char(s, c, i) is None,
    decreases s.len() - i,
{
    if i < s.len() {
        lemma_next_char_none(s, c, i + 1);
    }
}

/// A placeholder in front of a template reads as itself.
pub proof fn placeholder_reads_back(
    name: Seq<char>,
    spec: Seq<char>,
    rest: Seq<char>,
    before: Seq<char>,
)
    requires
        readable(PieceView::Placeholder { name, spec }),
    ensures
        split_template(written_piece(PieceView::Placeholder { name, spec }) + rest, before)
            == literal(before) + seq![PieceView::Placeholder { name, spec }] + split_template(
            rest,
            seq![],
        ),
{
    let s = written_piece(PieceView::Placeholder { name, spec }) + rest;
    let content = name + spec;
    let end = 1 + content.len() as int;
    assert(s[0] == '{');
    assert(s[1] == (content + seq!['}'])[0]);
    assert forall|j: int| 1 <= j < end implies #[trigger] s[j] != '}' by {
        if j - 1 < name.len() {
            assert(s[j] == name[j - 1]);
        } else {
            assert(s[j] == spec[j - 1 - name.len()]);
        }
    }
    assert(s[end] == '}');
    lemma_next_char_at(s, '}', 1, end);
    assert(s.subrange(1, end) =~= content);
    assert(s.skip(end + 1) =~= rest);
    if spec.len() > 0 {
        let n = name.len() as int;
        assert forall|j: int| 0 <= j < n implies #[trigger] content[j] != ':' by {
            assert(content[j] == name[j]);
        }
        assert(content[n] == spec[0]);
        lemma_next_char_at(content, ':', 0, n);
        assert(content.take(n) =~= name);
        assert(content.skip(n) =~= spec);
    } else {
        assert(content =~= name);
        lemma_next_char_none(content, ':', 0);
        assert(spec =~= seq![]);
    }
}

/// A template written from its pieces splits back into them.
pub proof fn template_reads_back(pieces: Seq<PieceView>)
    requires
        all_readable(pieces),
    ensures
        split_template(written(pieces), seq![]) == pieces,
    decreases pieces.len(),
{
    if pieces.len() == 0 {
        assert(pieces =~= seq![]);
    } else {
        let rest = pieces.skip(1);
        assert forall|i: int| 0 <= i < rest.len() implies readable(#[trigger] rest[i]) by {
            assert(readable(pieces[i + 1]));
        }
        assert forall|i: int| 0 <= i < rest.len() - 1 implies !(#[trigger] rest[i] is Literal
            && rest[i + 1] is Literal) by {
            assert(!(pieces[i + 1] is Literal && pieces[i + 2] is Literal));
        }
        template_reads_back(rest);
        assert(readable(pieces[0]));
        match pieces[0] {
            PieceView::Literal(text) => {
                escaped_text_reads_back(text, written(rest), seq![]);
                assert(seq![] + text =~= text);
                if rest.len() == 0 {
                    assert(written(rest) =~= seq![]);
                    assert(split_template(written(rest), text) =~= seq![PieceView::Literal(text)]);
                    assert(pieces =~= seq![pieces[0]]);
                } else {
                    assert(!(pieces[0] is Literal && pieces[1] is Literal));
                    assert(rest[0] == pieces[1]);
                    assert(readable(rest[0]));
                    let name = rest[0]->name;
                    let spec = rest[0]->spec;
                    let more = rest.skip(1);
                    placeholder_reads_back(name, spec, written(more), text);
                    placeholder_reads_back(name, spec, written(more), seq![]);
                    let tail = split_template(written(more), seq![]);
                    assert(literal(seq![]) + seq![rest[0]] + tail =~= seq![rest[0]] + tail);
                    assert(rest =~= seq![rest[0]] + tail);
                    assert(literal(text) + seq![rest[0]] + tail =~= seq![pieces[0]] + (seq![rest[0]]
                        + tail));
                    assert(pieces =~= seq![pieces[0]] + rest);
                }
            },
            PieceView::Placeholder { name, spec } => {
                placeholder_reads_back(name, spec, written(rest), seq![]);
                assert(literal(seq![]) + seq![pieces[0]] + rest =~= seq![pieces[0]] + rest);
                assert(pieces =~= seq![pieces[0]] + rest);
            },
        }
    }
}

/// A placeholder whose name begins with `{`. Written without the white space
/// that kept the two apart, its braces would be a doubled one.
pub open spec fn opens_twice(piece: PieceView) -> bool {
    match piece {
        PieceView::Literal(_) => false,
        PieceView::Placeholder { name, spec: _ } => name.len() > 0 && name[0] == '{',
    }
}

proof fn lemma_placeholder_readable(content: Seq<char>)
    requires
        forall|i: int| 0 <= i < content.len() ==> #[trigger] content[i] != '}',
    ensures
        readable(placeholder(content)) || opens_twice(placeholder(content)),
{
    lemma_next_char(content, ':', 0);
    let end = match next_char(content, ':', 0) {
        Some(i) => i,
        None => content.len() as int,
    };
    let head = content.take(end);
    if end == content.len() {
        assert(head =~= content);
    }
    text::trimming_settles(head);
    let name = text::trimmed(head);
    assert forall|i: int| 0 <= i < name.len() implies #[trigger] name[i] != '}' && name[i]
        != ':' by {
        assert(head.contains(name[i]));
        let k = choose|k: int| 0 <= k < head.len() && head[k] == name[i];
        assert(head[k] == content[k]);
    }
    let tail = content.skip(end);
    assert forall|i: int| 0 <= i < tail.len() implies #[trigger] tail[i] != '}' by {
        assert(tail[i] == content[end + i]);
    }
}

/// The pieces that a template splits into are such that they can be read back,
/// except for a placeholder whose name begins with `{`; no two texts stand side
/// by side.
proof fn lemma_split_readable(s: Seq<char>, text: Seq<char>)
    ensures
        forall|i: int|
            0 <= i < split_template(s, text).len() ==> readable(
                #[trigger] split_template(s, text)[i],
            ) || opens_twice(split_template(s, text)[i]),
        forall|i: int|
            0 <= i < split_template(s, text).len() - 1 ==> !(#[trigger] split_template(
                s,
                text,
            )[i] is Literal && split_template(s, text)[i + 1] is Literal),
    decreases s.len(),
{
    if s.len() == 0 {
    } else if s.len() > 1 && s[0] == '{' && s[1] == '{' {
        lemma_split_readable(s.skip(2), text.push('{'));
    } else if s.len() > 1 && s[0] == '}' && s[1] == '}' {
        lemma_split_readable(s.skip(2), text.push('}'));
    } else if s[0] == '{' {
        lemma_next_char(s, '}', 1);
        if let Some(end) = next_char(s, '}', 1) {
            let content = s.subrange(1, end);
            assert forall|i: int| 0 <= i < content.len() implies #[trigger] content[i] != '}' by {
                assert(content[i] == s[1 + i]);
            }
            lemma_placeholder_readable(content);
            let rest = s.skip(end + 1);
            lemma_split_readable(rest, seq![]);
            let head = literal(text);
            let mid = head.push(placeholder(content));
            let tail = split_template(rest, seq![]);
            let all = split_template(s, text);
            assert(all =~= mid + tail);
            assert forall|i: int| 0 <= i < all.len() implies readable(#[trigger] all[i])
                || opens_twice(all[i]) by {
                if i >= mid.len() {
                    assert(all[i] == tail[i - mid.len()]);
                }
            }
            assert forall|i: int| 0 <= i < all.len() - 1 implies !(#[trigger] all[i] is Literal
                && all[i + 1] is Literal) by {
                if i >= mid.len() {
                    assert(all[i] == tail[i - mid.len()]);
                    assert(all[i + 1] == tail[i - mid.len() + 1]);
                }
            }
        }
    } else {
        lemma_split_readable(s.skip(1), text.push(s[0]));
    }
}

/// The pieces that a template splits into, written in order, split back into
/// the same pieces, where no placeholder's name begins with `{`.
pub proof fn split_template_reads_back(s: Seq<char>)
    requires
        forall|i: int|
            0 <= i < split_template(s, seq![]).len() ==> !opens_twice(
                #[trigger] split_template(s, seq![])[i],
            ),
    ensures
        split_template(written(split_template(s, seq![])), seq![]) == split_template(s, seq![]),
{
    lemma_split_readable(s, seq![]);
    template_reads_back(split_template(s, seq![]));
}

/// A piece of a parsed template, its placeholder under the name of its argument.
pub open spec fn named_piece(
    piece: format_args::FormatPiece,
    names: Seq<Seq<char>>,
) -> PieceView {
    match piece {
        format_args::FormatPiece::Literal(text) => PieceView::Literal(text@),
        format_args::FormatPiece::Placeholder { index, options, trait_ } => match (
            index,
            format_args::options_text(options, trait_),
        ) {
            (Some(i), Some(spec_text)) => PieceView::Placeholder {
                name: names[i as int],
                spec: spec_text,
            },
            _ => PieceView::Placeholder { name: seq![], spec: seq![] },
        },
    }
}

/// The first `n` pieces of a parsed template under the names of the arguments.
pub open spec fn named_pieces(
    pieces: Seq<format_args::FormatPiece>,
    names: Seq<Seq<char>>,
    n: int,
) -> Seq<PieceView>
    decreases n,
{
    if n <= 0 {
        seq![]
    } else {
        named_pieces(pieces, names, n - 1).push(named_piece(pieces[n - 1], names))
    }
}

proof fn lemma_written_push(pieces: Seq<PieceView>, piece: PieceView)
    ensures
        written(pieces.push(piece)) == written(pieces) + written_piece(piece),
    decreases pieces.len(),
{
    let all = pieces.push(piece);
    if pieces.len() == 0 {
        assert(all.skip(1) =~= seq![]);
        assert(written(all.skip(1)) =~= seq![]);
        assert(written(all) =~= written(pieces) + written_piece(piece));
    } else {
        lemma_written_push(pieces.skip(1), piece);
        assert(all.skip(1) =~= pieces.skip(1).push(piece));
        assert(written(all) =~= written(pieces) + written_piece(piece));
    }
}

proof fn lemma_rebuilt_is_written(
    pieces: Seq<format_args::FormatPiece>,
    names: Seq<Seq<char>>,
    n: int,
)
    requires
        0 <= n <= pieces.len(),
    ensures
        format_args::rebuilt(pieces, names, n) matches format_args::Rebuilt::Text(out) ==> out
            == written(named_pieces(pieces, names, n)),
    decreases n,
{
    if n > 0 {
        lemma_rebuilt_is_written(pieces, names, n - 1);
        let rest = named_pieces(pieces, names, n - 1);
        let piece = named_piece(pieces[n - 1], names);
        lemma_written_push(rest, piece);
        if let format_args::Rebuilt::Text(out) = format_args::rebuilt(pieces, names, n) {
            assert(out =~= written(rest) + written_piece(piece));
        }
    } else {
        assert(written(seq![]) =~= seq![]);
    }
}

/// A template that is written anew reads back as the pieces it came from, each
/// placeholder under the name of its argument.
pub proof fn rebuilt_template_reads_back(
    pieces: Seq<format_args::FormatPiece>,
    names: Seq<Seq<char>>,
)
    requires
        all_readable(named_pieces(pieces, names, pieces.len() as int)),
    ensures
        format_args::rebuilt(pieces, names, pieces.len() as int) matches format_args::Rebuilt::Text(
            out,
        ) ==> split_template(out, seq![]) == named_pieces(pieces, names, pieces.len() as int),
{
    lemma_rebuilt_is_written(pieces, names, pieces.len() as int);
    template_reads_back(named_pieces(pieces, names, pieces.len() as int));
}

/// A rebuilt `text!` invocation's payload.
#[derive(Debug)]
pub struct Rendered {
    /// The literal's contents, such as `n = {v:?}`.
    pub template: String,
    /// `name = expr` bindings appended after the literal.
    pub bindings: Vec<String>,
    /// Every used source was a bare identifier: `MachineApplicable`.
    pub all_bare: bool,
}

/// Texts in a row, each with `, ` in front.
pub open spec fn listed(list: Seq<Seq<char>>) -> Seq<char>
    decreases list.len(),
{
    if list.len() == 0 {
        seq![]
    } else {
        listed(list.drop_last()) + ", "@ + list.last()
    }
}

/// A macro call: its name with `!(`, the quoted template, what follows the
/// template, the bindings, and `)`.
pub open spec fn macro_text(
    open: Seq<char>,
    template: Seq<char>,
    context: Seq<char>,
    bindings: Seq<Seq<char>>,
) -> Seq<char> {
    open + text::quoted(template) + context + listed(bindings) + seq![')']
}

/// Appends texts, each with `, ` in front.
pub fn push_listed(out: &mut String, list: &Vec<String>)
    ensures
        final(out)@ == old(out)@ + listed(text::texts(list@)),
{
    let ghost before = out@;
    let mut i: usize = 0;
    proof {
        assert(text::texts(list@.take(0)) =~= seq![]);
        assert(before + listed(seq![]) =~= before);
    }
    while i < list.len()
        invariant
            i <= list.len(),
            out@ == before + listed(text::texts(list@.take(i as int))),
        decreases list.len() - i,
    {
        out.append(", ");
        out.append(list[i].as_str());
        proof {
            let t = text::texts(list@.take(i + 1));
            assert(t.drop_last() =~= text::texts(list@.take(i as int)));
            assert(t.last() == list@[i as int]@);
            assert(out@ =~= before + listed(t));
        }
        i = i + 1;
    }
    proof {
        assert(list@.take(list.len() as int) =~= list@);
    }
}

/// `text!("template"[context][, binding]*)` and its like.
pub fn write_macro(open: &str, template: &str, context: &str, bindings: &Vec<String>) -> (r: String)
    ensures
        r@ == macro_text(open@, template@, context@, text::texts(bindings@)),
{
    let mut out: String = open.to_owned();
    out.append(text::quote(template).as_str());
    out.append(context);
    push_listed(&mut out, bindings);
    let ghost inner = out@;
    out.push(')');
    proof {
        assert(out@ =~= inner + seq![')']);
    }
    out
}

impl Rendered {
    /// The call that the payload makes up.
    pub open spec fn call_text(self) -> Seq<char> {
        macro_text("text!("@, self.template@, seq![], text::texts(self.bindings@))
    }

    /// `text!("{template}"[, binding]*)`.
    pub fn text_call(&self) -> (r: String)
        ensures
            r@ == self.call_text(),
    {
        let none: String = String::new();
        proof {
            assert(none@ =~= seq![]);
        }
        write_macro("text!(", self.template.as_str(), none.as_str(), &self.bindings)
    }
}

/// A macro call without bindings is its opening, the quoted template, what follows
/// it and a parenthesis; each binding stands behind the ones before it, after a
/// comma.
pub proof fn bindings_stand_behind_the_template(
    open: Seq<char>,
    template: Seq<char>,
    context: Seq<char>,
    bindings: Seq<Seq<char>>,
    binding: Seq<char>,
)
    ensures
        macro_text(open, template, context, seq![]) == open + text::quoted(template) + context
            + seq![')'],
        macro_text(open, template, context, bindings).len() > 0,
        macro_text(open, template, context, bindings.push(binding)) == macro_text(
            open,
            template,
            context,
            bindings,
        ).drop_last() + ", "@ + binding + seq![')'],
{
    let front = open + text::quoted(template) + context;
    assert(front + listed(seq![]) =~= front);
    assert(bindings.push(binding).drop_last() =~= bindings);
    assert(macro_text(open, template, context, bindings).drop_last() =~= front + listed(bindings));
    assert(macro_text(open, template, context, bindings.push(binding)) =~= front + listed(bindings)
        + ", "@ + binding + seq![')']);
}

} // verus!
