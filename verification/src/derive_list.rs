//! The `#[derive(..)]` that stands before an item in the source text.

use crate::hir::Span;
use crate::lexer;
use crate::source_map::{SourceFile, SourceMap};
use crate::text;
use vstd::prelude::*;
use vstd::utf8::*;

verus! {

/// The end of `s[..end]` without the white space it ends with.
pub open spec fn content_end(s: Seq<char>, end: int) -> int
    decreases end,
{
    if 0 < end <= s.len() && text::white_space(s[end - 1]) {
        content_end(s, end - 1)
    } else {
        end
    }
}

/// Where the line that `end` stands on starts.
pub open spec fn line_start(s: Seq<char>, end: int) -> int
    decreases end,
{
    if 0 < end <= s.len() && s[end - 1] != '\n' {
        line_start(s, end - 1)
    } else {
        end
    }
}

/// The first place from `from` on, up to `end`, that is no white space.
pub open spec fn content_start(s: Seq<char>, from: int, end: int) -> int
    decreases end - from,
{
    if 0 <= from < end && text::white_space(s[from]) {
        content_start(s, from + 1, end)
    } else {
        from
    }
}

/// The last `/*` in `s[..end]`.
pub open spec fn comment_open(s: Seq<char>, end: int) -> Option<int>
    decreases end,
{
    if end < 2 {
        None
    } else if s[end - 2] == '/' && s[end - 1] == '*' {
        Some(end - 2)
    } else {
        comment_open(s, end - 1)
    }
}

/// The `[` that closes `depth` open `]` when walking back from `end`.
pub open spec fn bracket_open(s: Seq<char>, end: int, depth: int) -> Option<int>
    decreases end,
{
    if end <= 0 {
        None
    } else if s[end - 1] == ']' {
        bracket_open(s, end - 1, depth + 1)
    } else if s[end - 1] == '[' && depth == 1 {
        Some(end - 1)
    } else if s[end - 1] == '[' {
        bracket_open(s, end - 1, depth - 1)
    } else {
        bracket_open(s, end - 1, depth)
    }
}

/// How the list of a derive ends.
#[derive(Clone, Copy, Debug, PartialEq, Eq, Structural)]
pub enum ListEnd {
    Empty,
    Comma,
    Path,
}

/// What stands between `[` at `open` and `]`, which ends at `end`: the place of
/// the `)` of a derive's list, and how the list ends.
pub open spec fn derive_at(s: Seq<char>, open: int, end: int) -> Option<(int, ListEnd)> {
    let before = content_end(s, end - 1);
    let inner = content_start(s, open + 1, before);
    let args = content_start(s, inner + 6, before);
    let list = content_end(s, before - 1);
    if inner + 6 <= before && s.subrange(inner, inner + 6) == "derive"@ && args < before && s[args]
        == '(' && s[before - 1] == ')' {
        Some(
            (
                before - 1,
                if list == args + 1 {
                    ListEnd::Empty
                } else if s[list - 1] == ',' {
                    ListEnd::Comma
                } else {
                    ListEnd::Path
                },
            ),
        )
    } else {
        None
    }
}

/// The derive nearest before `end`, skipping back over comments and other
/// attributes: the place of the `)` of its list, and how the list ends.
pub open spec fn derive_before(s: Seq<char>, end: int) -> Option<(int, ListEnd)>
    decreases end,
    when 0 <= end <= s.len()
    via derive_before_ends
{
    let end = content_end(s, end);
    let line = line_start(s, end);
    let word = content_start(s, line, end);
    if word + 2 <= end && s[word] == '/' && s[word + 1] == '/' {
        derive_before(s, line)
    } else if end >= 2 && s[end - 2] == '*' && s[end - 1] == '/' {
        match comment_open(s, end - 2) {
            Some(open) => derive_before(s, open),
            None => None,
        }
    } else if end == 0 || s[end - 1] != ']' {
        None
    } else {
        match bracket_open(s, end, 0) {
            Some(open) => if open > 0 && s[open - 1] == '#' {
                match derive_at(s, open, end) {
                    Some(found) => Some(found),
                    None => derive_before(s, open - 1),
                }
            } else {
                None
            },
            None => None,
        }
    }
}

#[via_fn]
proof fn derive_before_ends(s: Seq<char>, end: int) {
    lemma_content_end(s, end);
    let end = content_end(s, end);
    lemma_line_start(s, end);
    let line = line_start(s, end);
    lemma_content_start(s, line, end);
    if end >= 2 {
        lemma_comment_open(s, end - 2);
    }
    lemma_bracket_open(s, end, 0);
}

proof fn lemma_content_end(s: Seq<char>, end: int)
    requires
        0 <= end <= s.len(),
    ensures
        0 <= content_end(s, end) <= end,
        content_end(s, end) > 0 ==> !text::white_space(s[content_end(s, end) - 1]),
        forall|i: int| content_end(s, end) <= i < end ==> text::white_space(#[trigger] s[i]),
    decreases end,
{
    if 0 < end && text::white_space(s[end - 1]) {
        lemma_content_end(s, end - 1);
    }
}

proof fn lemma_line_start(s: Seq<char>, end: int)
    requires
        0 <= end <= s.len(),
    ensures
        0 <= line_start(s, end) <= end,
    decreases end,
{
    if 0 < end && s[end - 1] != '\n' {
        lemma_line_start(s, end - 1);
    }
}

proof fn lemma_content_start(s: Seq<char>, from: int, end: int)
    requires
        0 <= from <= end <= s.len(),
    ensures
        from <= content_start(s, from, end) <= end,
    decreases end - from,
{
    if from < end && text::white_space(s[from]) {
        lemma_content_start(s, from + 1, end);
    }
}

proof fn lemma_comment_open(s: Seq<char>, end: int)
    requires
        0 <= end <= s.len(),
    ensures
        comment_open(s, end) matches Some(open) ==> 0 <= open <= end - 2,
    decreases end,
{
    if end >= 2 && !(s[end - 2] == '/' && s[end - 1] == '*') {
        lemma_comment_open(s, end - 1);
    }
}

proof fn lemma_bracket_open(s: Seq<char>, end: int, depth: int)
    requires
        0 <= end <= s.len(),
    ensures
        bracket_open(s, end, depth) matches Some(open) ==> 0 <= open < end && s[open] == '[',
    decreases end,
{
    if end > 0 {
        if s[end - 1] == ']' {
            lemma_bracket_open(s, end - 1, depth + 1);
        } else if s[end - 1] == '[' && depth != 1 {
            lemma_bracket_open(s, end - 1, depth - 1);
        } else if s[end - 1] != '[' {
            lemma_bracket_open(s, end - 1, depth);
        }
    }
}

proof fn lemma_derive_at(s: Seq<char>, open: int, end: int)
    requires
        0 <= open < end - 1 < s.len(),
        s[open] == '[',
    ensures
        open < content_end(s, end - 1),
        content_end(s, end - 1) <= end - 1,
        derive_at(s, open, end) matches Some(found) ==> open < found.0 < end - 1 && s[found.0]
            == ')',
{
    lemma_content_end(s, end - 1);
    let before = content_end(s, end - 1);
    if before <= open {
        assert(text::white_space(s[open]));
    }
    lemma_content_start(s, open + 1, before);
}

/// The place that a derive is extended at is the closing parenthesis of its
/// list, before the item.
pub proof fn derive_ends_at_parenthesis(s: Seq<char>, end: int)
    requires
        0 <= end <= s.len(),
    ensures
        derive_before(s, end) matches Some(found) ==> 0 < found.0 < end && s[found.0] == ')',
    decreases end,
{
    lemma_content_end(s, end);
    let end = content_end(s, end);
    let line = line_start(s, end);
    lemma_line_start(s, end);
    lemma_content_start(s, line, end);
    let word = content_start(s, line, end);
    if word + 2 <= end && s[word] == '/' && s[word + 1] == '/' {
        derive_ends_at_parenthesis(s, line);
    } else if end >= 2 && s[end - 2] == '*' && s[end - 1] == '/' {
        lemma_comment_open(s, end - 2);
        if let Some(open) = comment_open(s, end - 2) {
            derive_ends_at_parenthesis(s, open);
        }
    } else if end > 0 && s[end - 1] == ']' {
        lemma_bracket_open(s, end, 0);
        if let Some(open) = bracket_open(s, end, 0) {
            if open > 0 && s[open - 1] == '#' {
                lemma_derive_at(s, open, end);
                if derive_at(s, open, end) is None {
                    derive_ends_at_parenthesis(s, open - 1);
                }
            }
        }
    }
}

fn find_content_end(s: &Vec<char>, end: usize) -> (r: usize)
    requires
        end <= s.len(),
    ensures
        r == content_end(s@, end as int),
        r <= end,
{
    let mut e: usize = end;
    while e > 0 && text::is_white_space(s[e - 1])
        invariant
            e <= end <= s.len(),
            content_end(s@, end as int) == content_end(s@, e as int),
        decreases e,
    {
        e = e - 1;
    }
    e
}

fn find_line_start(s: &Vec<char>, end: usize) -> (r: usize)
    requires
        end <= s.len(),
    ensures
        r == line_start(s@, end as int),
        r <= end,
{
    let mut e: usize = end;
    while e > 0 && s[e - 1] != '\n'
        invariant
            e <= end <= s.len(),
            line_start(s@, end as int) == line_start(s@, e as int),
        decreases e,
    {
        e = e - 1;
    }
    e
}

fn find_content_start(s: &Vec<char>, from: usize, end: usize) -> (r: usize)
    requires
        from <= end <= s.len(),
    ensures
        r == content_start(s@, from as int, end as int),
        from <= r <= end,
{
    let mut i: usize = from;
    while i < end && text::is_white_space(s[i])
        invariant
            from <= i <= end <= s.len(),
            content_start(s@, from as int, end as int) == content_start(s@, i as int, end as int),
        decreases end - i,
    {
        i = i + 1;
    }
    i
}

fn find_comment_open(s: &Vec<char>, end: usize) -> (r: Option<usize>)
    requires
        end <= s.len(),
    ensures
        match r {
            Some(open) => comment_open(s@, end as int) == Some(open as int) && open < end,
            None => comment_open(s@, end as int) is None,
        },
{
    let mut e: usize = end;
    while e >= 2
        invariant
            e <= end <= s.len(),
            comment_open(s@, end as int) == comment_open(s@, e as int),
        decreases e,
    {
        if s[e - 2] == '/' && s[e - 1] == '*' {
            return Some(e - 2);
        }
        e = e - 1;
    }
    None
}

/// Walks the `]` that ends at `end` back to its `[`.
fn find_bracket_open(s: &Vec<char>, end: usize) -> (r: Option<usize>)
    requires
        0 < end <= s.len(),
        s@[end - 1] == ']',
    ensures
        match r {
            Some(open) => bracket_open(s@, end as int, 0) == Some(open as int) && open < end,
            None => bracket_open(s@, end as int, 0) is None,
        },
{
    let mut e: usize = end - 1;
    let mut depth: usize = 1;
    while e > 0
        invariant
            e < end <= s.len(),
            1 <= depth <= end - e,
            bracket_open(s@, end as int, 0) == bracket_open(s@, e as int, depth as int),
        decreases e,
    {
        let c: char = s[e - 1];
        if c == ']' {
            depth = depth + 1;
        } else if c == '[' {
            if depth == 1 {
                return Some(e - 1);
            }
            depth = depth - 1;
        }
        e = e - 1;
    }
    None
}

fn read_derive(s: &Vec<char>, open: usize, end: usize) -> (r: Option<(usize, ListEnd)>)
    requires
        open < end - 1,
        end <= s.len(),
        s@[open as int] == '[',
    ensures
        match r {
            Some((close, list)) => derive_at(s@, open as int, end as int) == Some(
                (close as int, list),
            ),
            None => derive_at(s@, open as int, end as int) is None,
        },
{
    proof {
        lemma_derive_at(s@, open as int, end as int);
        reveal_strlit("derive");
    }
    let before: usize = find_content_end(s, end - 1);
    let inner: usize = find_content_start(s, open + 1, before);
    if before - inner < 6 {
        return None;
    }
    let word: String = text::string_of(s, inner, inner + 6);
    if !text::str_eq(word.as_str(), "derive") {
        return None;
    }
    let args: usize = find_content_start(s, inner + 6, before);
    if args == before || s[args] != '(' || s[before - 1] != ')' {
        return None;
    }
    let list: usize = find_content_end(s, before - 1);
    proof {
        lemma_content_end(s@, before - 1);
        if list <= args {
            assert(text::white_space(s@[args as int]));
        }
    }
    let kind: ListEnd = if list == args + 1 {
        ListEnd::Empty
    } else if s[list - 1] == ',' {
        ListEnd::Comma
    } else {
        ListEnd::Path
    };
    Some((before - 1, kind))
}

/// The derive nearest before `end`: the place of the `)` of its list, and how
/// the list ends. Comments can sit between an attribute and the item.
pub fn find_derive(s: &Vec<char>, end: usize) -> (r: Option<(usize, ListEnd)>)
    requires
        end <= s.len(),
    ensures
        match r {
            Some((close, list)) => derive_before(s@, end as int) == Some((close as int, list)),
            None => derive_before(s@, end as int) is None,
        },
    decreases end,
{
    let end: usize = find_content_end(s, end);
    let line: usize = find_line_start(s, end);
    let word: usize = find_content_start(s, line, end);
    if end - word >= 2 && s[word] == '/' && s[word + 1] == '/' {
        return find_derive(s, line);
    }
    if end >= 2 && s[end - 2] == '*' && s[end - 1] == '/' {
        return match find_comment_open(s, end - 2) {
            Some(open) => find_derive(s, open),
            None => None,
        };
    }
    if end == 0 || s[end - 1] != ']' {
        return None;
    }
    match find_bracket_open(s, end) {
        Some(open) => {
            proof {
                lemma_bracket_open(s@, end as int, 0);
            }
            if open > 0 && s[open - 1] == '#' {
                match read_derive(s, open, end) {
                    Some(found) => Some(found),
                    None => find_derive(s, open - 1),
                }
            } else {
                None
            }
        },
        None => None,
    }
}

proof fn lemma_prefix_bytes(s: Seq<char>, n: int)
    requires
        0 <= n <= s.len(),
    ensures
        n <= encode_utf8(s.take(n)).len() <= encode_utf8(s).len(),
    decreases s.len(),
{
    if n == 0 {
        assert(s.take(0) =~= Seq::empty());
    } else {
        lemma_prefix_bytes(s.drop_first(), n - 1);
        assert(s.take(n).drop_first() =~= s.drop_first().take(n - 1));
    }
}

/// What goes into a derive's list to add `path`.
pub open spec fn list_addition(list: ListEnd, path: Seq<char>) -> Seq<char> {
    match list {
        ListEnd::Empty => path,
        ListEnd::Comma => " "@ + path,
        ListEnd::Path => ", "@ + path,
    }
}

/// Where a derive in front of the byte position `lo` takes another path, and
/// the text to put there.
pub open spec fn derive_extension(file: SourceFile, lo: u32, path: Seq<char>) -> Option<
    (Span, Seq<char>),
> {
    match file.src {
        Some(src) => if file.start_pos <= lo && lexer::sliceable(src@, 0, lo - file.start_pos) {
            let before = lexer::slice(src@, 0, lo - file.start_pos);
            match derive_before(before, before.len() as int) {
                Some((close, list)) => {
                    let at = (file.start_pos + encode_utf8(before.take(close + 1)).len() - 1) as u32;
                    Some((Span { lo: at, hi: at, ctxt: 0 }, list_addition(list, path)))
                },
                None => None,
            }
        } else {
            None
        },
        None => None,
    }
}

fn extend_in_file(file: &SourceFile, lo: u32, path: &str) -> (r: Option<(Span, String)>)
    ensures
        match r {
            Some((span, addition)) => derive_extension(*file, lo, path@) == Some(
                (span, addition@),
            ),
            None => derive_extension(*file, lo, path@) is None,
        },
{
    let src: &String = match &file.src {
        Some(src) => src,
        None => {
            return None;
        },
    };
    if lo < file.start_pos {
        return None;
    }
    let head: &str = match lexer::str_get(src.as_str(), 0, (lo - file.start_pos) as usize) {
        Some(head) => head,
        None => {
            return None;
        },
    };
    let cs: Vec<char> = text::chars(head);
    match find_derive(&cs, cs.len()) {
        Some((close, list)) => {
            let ghost bytes = encode_utf8(src@);
            proof {
                derive_ends_at_parenthesis(cs@, cs@.len() as int);
                lemma_prefix_bytes(cs@, close + 1);
                encode_utf8_valid_utf8(src@);
                valid_utf8_split(bytes, (lo - file.start_pos) as int);
                decode_utf8_encode_utf8(bytes.subrange(0, (lo - file.start_pos) as int));
            }
            let before: String = text::string_of(&cs, 0, close + 1);
            proof {
                assert(before@ =~= cs@.take(close + 1));
            }
            let len: usize = before.as_str().as_bytes().len();
            let at: u32 = file.start_pos + (len - 1) as u32;
            let addition: String = match list {
                ListEnd::Empty => path.to_owned(),
                ListEnd::Comma => text::cat(" ", path),
                ListEnd::Path => text::cat(", ", path),
            };
            Some((Span { lo: at, hi: at, ctxt: 0 }, addition))
        },
        None => None,
    }
}

/// Where a derive in front of the byte position `lo` takes another path.
pub open spec fn extension_at(map: SourceMap, lo: u32, path: Seq<char>) -> Option<
    (Span, Seq<char>),
> {
    match map.file_at(lo) {
        Some(i) => derive_extension(map.files@[i], lo, path),
        None => None,
    }
}

/// `(insertion point, text)` extending the source `#[derive(..)]` attached to
/// the item that starts at `lo`: `, <path>` before the `)` closing the list, a
/// bare `<path>` when the list is empty or already comma-terminated. Nothing
/// when no `#[derive]` precedes the item: derive attributes are consumed at
/// expansion, so the search runs on the source text before the item, skipping
/// back over comments and other attributes.
pub fn extend_derive_part(map: &SourceMap, lo: u32, path: &str) -> (r: Option<(Span, String)>)
    ensures
        match r {
            Some((span, addition)) => extension_at(*map, lo, path@) == Some((span, addition@)),
            None => extension_at(*map, lo, path@) is None,
        },
{
    match map.lookup_file(lo) {
        Some(i) => extend_in_file(&map.files[i], lo, path),
        None => None,
    }
}

/// What is added to a derive list continues it: an empty list gets the path
/// alone, one that ends in a comma gets it behind a blank, and any other behind a
/// comma of its own.
pub proof fn additions_continue_the_list(path: Seq<char>)
    ensures
        list_addition(ListEnd::Empty, path) == path,
        list_addition(ListEnd::Comma, path) == " "@ + path,
        list_addition(ListEnd::Path, path) == ", "@ + path,
        list_addition(ListEnd::Comma, path).len() == path.len() + 1,
        list_addition(ListEnd::Path, path).len() == path.len() + 2,
{
    reveal_strlit(" ");
    reveal_strlit(", ");
}

} // verus!
