//! Text: building strings, taking them apart, and comparing them.

use vstd::prelude::*;
use vstd::utf8::*;

verus! {

/// `String::push` appends one character to the end of the string.
pub assume_specification[ String::push ](s: &mut String, c: char)
    ensures
        final(s)@ == old(s)@.push(c),
;

/// What `{:?}` prints for a string: the quoted and escaped form of its text.
pub uninterp spec fn quoted(text: Seq<char>) -> Seq<char>;

/// `format!("{text:?}")`, the `Debug` form of a `str`: its text in double
/// quotes, with the escapes that `char::escape_debug` writes. The result is a
/// function of the text alone. Which characters are escaped is not spelled out,
/// nor that the result is a string literal with that value: the form of `Debug`
/// is not one that `std` fixes.
#[verifier::external_body]
pub(crate) fn quote(text: &str) -> (r: String)
    ensures
        r@ == quoted(text@),
{
    format!("{text:?}")
}

/// Whether a character has Unicode's `Alphabetic` property.
pub uninterp spec fn alphabetic(c: char) -> bool;

/// `char::is_alphabetic`: the character has Unicode's `Alphabetic` property, a
/// table that is not spelled out here.
#[verifier::external_body]
pub(crate) fn is_alphabetic(c: char) -> (r: bool)
    ensures
        r == alphabetic(c),
{
    c.is_alphabetic()
}

/// The texts of a list of strings.
pub open spec fn texts(list: Seq<String>) -> Seq<Seq<char>> {
    list.map_values(|s: String| s@)
}

/// The text of an optional string.
pub open spec fn text_opt(s: Option<String>) -> Option<Seq<char>> {
    match s {
        Some(s) => Some(s@),
        None => None,
    }
}

/// The characters of `s`.
pub fn chars(s: &str) -> (r: Vec<char>)
    ensures
        r@ == s@,
{
    let mut out: Vec<char> = Vec::new();
    for c in it: s.chars()
        invariant
            it.seq() == s@,
            out@ == s@.take(it.index() as int),
    {
        out.push(c);
    }
    proof {
        assert(s@.take(s@.len() as int) =~= s@);
    }
    out
}

/// The string of `v`'s characters from `from` up to `to`.
pub fn string_of(v: &Vec<char>, from: usize, to: usize) -> (r: String)
    requires
        from <= to <= v.len(),
    ensures
        r@ == v@.subrange(from as int, to as int),
{
    let mut out: String = String::new();
    let mut i: usize = from;
    while i < to
        invariant
            from <= i <= to <= v.len(),
            out@ == v@.subrange(from as int, i as int),
        decreases to - i,
    {
        out.push(v[i]);
        proof {
            assert(v@.subrange(from as int, i + 1) =~= v@.subrange(from as int, i as int).push(
                v@[i as int],
            ));
        }
        i = i + 1;
    }
    out
}

/// Whether two texts are the same.
pub fn str_eq(a: &str, b: &str) -> (r: bool)
    ensures
        r == (a@ == b@),
{
    let x: &[u8] = a.as_bytes();
    let y: &[u8] = b.as_bytes();
    proof {
        encode_utf8_decode_utf8(a@);
        encode_utf8_decode_utf8(b@);
    }
    if x.len() != y.len() {
        return false;
    }
    let mut i: usize = 0;
    while i < x.len()
        invariant
            i <= x.len(),
            x.len() == y.len(),
            x@ == encode_utf8(a@),
            y@ == encode_utf8(b@),
            forall|j: int| 0 <= j < i ==> x@[j] == y@[j],
        decreases x.len() - i,
    {
        if x[i] != y[i] {
            return false;
        }
        i = i + 1;
    }
    proof {
        assert(x@ =~= y@);
    }
    true
}

/// The digit `d` as a character.
pub open spec fn digit(d: nat) -> char {
    ('0' as u32 + d) as char
}

/// `n` in decimal.
pub open spec fn decimal(n: nat) -> Seq<char>
    decreases n,
{
    if n < 10 {
        seq![digit(n)]
    } else {
        decimal(n / 10).push(digit(n % 10))
    }
}

/// The digit `d` as a character.
fn digit_char(d: u64) -> (r: char)
    requires
        d < 10,
    ensures
        r == digit(d as nat),
{
    match d {
        0 => '0',
        1 => '1',
        2 => '2',
        3 => '3',
        4 => '4',
        5 => '5',
        6 => '6',
        7 => '7',
        8 => '8',
        _ => '9',
    }
}

/// Appends `n` in decimal.
pub fn push_decimal(out: &mut String, n: u64)
    ensures
        final(out)@ == old(out)@ + decimal(n as nat),
    decreases n,
{
    if n < 10 {
        out.push(digit_char(n));
        proof {
            assert(old(out)@ + decimal(n as nat) =~= old(out)@.push(digit(n as nat)));
        }
    } else {
        push_decimal(out, n / 10);
        out.push(digit_char(n % 10));
        proof {
            assert(old(out)@ + decimal(n as nat) =~= (old(out)@ + decimal(n as nat / 10)).push(
                digit(n as nat % 10),
            ));
        }
    }
}

/// `n` in decimal.
pub fn to_decimal(n: u64) -> (r: String)
    ensures
        r@ == decimal(n as nat),
{
    let mut out: String = String::new();
    push_decimal(&mut out, n);
    proof {
        assert(Seq::<char>::empty() + decimal(n as nat) =~= decimal(n as nat));
    }
    out
}

/// Unicode's `White_Space` property.
pub open spec fn white_space(c: char) -> bool {
    ||| '\u{9}' <= c <= '\u{d}'
    ||| c == ' '
    ||| c == '\u{85}'
    ||| c == '\u{a0}'
    ||| c == '\u{1680}'
    ||| '\u{2000}' <= c <= '\u{200a}'
    ||| c == '\u{2028}'
    ||| c == '\u{2029}'
    ||| c == '\u{202f}'
    ||| c == '\u{205f}'
    ||| c == '\u{3000}'
}

/// Unicode's `White_Space` property.
pub fn is_white_space(c: char) -> (r: bool)
    ensures
        r == white_space(c),
{
    ('\u{9}' <= c && c <= '\u{d}') || c == ' ' || c == '\u{85}' || c == '\u{a0}' || c == '\u{1680}'
        || ('\u{2000}' <= c && c <= '\u{200a}') || c == '\u{2028}' || c == '\u{2029}' || c
        == '\u{202f}' || c == '\u{205f}' || c == '\u{3000}'
}

/// `s` without the white space it starts with.
pub open spec fn trim_start(s: Seq<char>) -> Seq<char>
    decreases s.len(),
{
    if s.len() > 0 && white_space(s[0]) {
        trim_start(s.skip(1))
    } else {
        s
    }
}

/// `s` without the white space it ends with.
pub open spec fn trim_end(s: Seq<char>) -> Seq<char>
    decreases s.len(),
{
    if s.len() > 0 && white_space(s.last()) {
        trim_end(s.drop_last())
    } else {
        s
    }
}

/// `s` without the white space at its ends.
pub open spec fn trimmed(s: Seq<char>) -> Seq<char> {
    trim_end(trim_start(s))
}

proof fn lemma_trim_start(s: Seq<char>) -> (k: int)
    ensures
        0 <= k <= s.len(),
        trim_start(s) == s.skip(k),
        k < s.len() ==> !white_space(s[k]),
        forall|i: int| 0 <= i < k ==> white_space(#[trigger] s[i]),
    decreases s.len(),
{
    if s.len() > 0 && white_space(s[0]) {
        let k = lemma_trim_start(s.skip(1));
        assert(s.skip(1).skip(k) =~= s.skip(k + 1));
        assert forall|i: int| 0 <= i < k + 1 implies white_space(#[trigger] s[i]) by {
            if i > 0 {
                assert(s.skip(1)[i - 1] == s[i]);
            }
        }
        k + 1
    } else {
        assert(s.skip(0) =~= s);
        0
    }
}

proof fn lemma_trim_end(s: Seq<char>) -> (k: int)
    ensures
        0 <= k <= s.len(),
        trim_end(s) == s.take(k),
        k > 0 ==> !white_space(s[k - 1]),
        forall|i: int| k <= i < s.len() ==> white_space(#[trigger] s[i]),
    decreases s.len(),
{
    if s.len() > 0 && white_space(s.last()) {
        let k = lemma_trim_end(s.drop_last());
        assert(s.drop_last().take(k) =~= s.take(k));
        assert forall|i: int| k <= i < s.len() implies white_space(#[trigger] s[i]) by {
            if i < s.len() - 1 {
                assert(s.drop_last()[i] == s[i]);
            }
        }
        k
    } else {
        assert(s.take(s.len() as int) =~= s);
        s.len() as int
    }
}

/// Trimming what is trimmed changes nothing, and brings no character in.
pub proof fn trimming_settles(s: Seq<char>)
    ensures
        trimmed(trimmed(s)) == trimmed(s),
        forall|i: int| 0 <= i < trimmed(s).len() ==> s.contains(#[trigger] trimmed(s)[i]),
{
    let from = lemma_trim_start(s);
    let rest = s.skip(from);
    let to = lemma_trim_end(rest);
    let short = rest.take(to);
    assert(trimmed(s) == short);
    if to > 0 {
        assert(short[0] == s[from]);
        assert(short.last() == rest[to - 1]);
    }
    assert(trim_start(short) == short);
    assert forall|i: int| 0 <= i < short.len() implies s.contains(#[trigger] short[i]) by {
        assert(short[i] == s[from + i]);
    }
}

/// A text without its last character is no longer in bytes.
pub proof fn lemma_drop_last_bytes(s: Seq<char>)
    requires
        s.len() > 0,
    ensures
        encode_utf8(s.drop_last()).len() <= encode_utf8(s).len(),
    decreases s.len(),
{
    if s.len() > 1 {
        lemma_drop_last_bytes(s.drop_first());
        assert(s.drop_last().drop_first() =~= s.drop_first().drop_last());
    } else {
        assert(s.drop_last() =~= Seq::empty());
        assert(encode_utf8(s.drop_last()).len() == 0);
    }
}

proof fn lemma_trim_end_bytes(s: Seq<char>)
    ensures
        encode_utf8(trim_end(s)).len() <= encode_utf8(s).len(),
    decreases s.len(),
{
    if s.len() > 0 && white_space(s.last()) {
        lemma_drop_last_bytes(s);
        lemma_trim_end_bytes(s.drop_last());
    }
}

proof fn lemma_trim_start_bytes(s: Seq<char>)
    ensures
        encode_utf8(trim_start(s)).len() <= encode_utf8(s).len(),
    decreases s.len(),
{
    if s.len() > 0 && white_space(s[0]) {
        lemma_trim_start_bytes(s.skip(1));
        assert(s.skip(1) =~= s.drop_first());
    }
}

/// `s` without the white space at its ends.
pub fn trim(s: &str) -> (r: String)
    ensures
        r@ == trimmed(s@),
        encode_utf8(r@).len() <= encode_utf8(s@).len(),
{
    proof {
        lemma_trim_start_bytes(s@);
        lemma_trim_end_bytes(trim_start(s@));
    }
    let cs: Vec<char> = chars(s);
    let mut from: usize = 0;
    proof {
        assert(cs@.skip(0) =~= cs@);
    }
    while from < cs.len() && is_white_space(cs[from])
        invariant
            from <= cs.len(),
            trim_start(cs@) == trim_start(cs@.skip(from as int)),
        decreases cs.len() - from,
    {
        proof {
            assert(cs@.skip(from as int).skip(1) =~= cs@.skip(from + 1));
        }
        from = from + 1;
    }
    proof {
        if from < cs.len() {
            assert(cs@.skip(from as int)[0] == cs@[from as int]);
        }
    }
    let mut to: usize = cs.len();
    proof {
        assert(cs@.skip(from as int) =~= cs@.subrange(from as int, to as int));
    }
    while from < to && is_white_space(cs[to - 1])
        invariant
            from <= to <= cs.len(),
            trim_start(cs@) == cs@.skip(from as int),
            trim_end(trim_start(cs@)) == trim_end(cs@.subrange(from as int, to as int)),
        decreases to - from,
    {
        proof {
            assert(cs@.subrange(from as int, to as int).drop_last() =~= cs@.subrange(
                from as int,
                to - 1,
            ));
        }
        to = to - 1;
    }
    proof {
        if from < to {
            assert(cs@.subrange(from as int, to as int).last() == cs@[to - 1]);
        }
    }
    string_of(&cs, from, to)
}

/// `a` followed by `b`.
pub fn cat(a: &str, b: &str) -> (r: String)
    ensures
        r@ == a@ + b@,
{
    let mut out: String = a.to_owned();
    out.append(b);
    out
}

/// `a`, `b` and `c` in a row.
pub fn cat3(a: &str, b: &str, c: &str) -> (r: String)
    ensures
        r@ == a@ + b@ + c@,
{
    let mut out: String = a.to_owned();
    out.append(b);
    out.append(c);
    out
}

/// `a`, `b`, `c` and `d` in a row.
pub fn cat4(a: &str, b: &str, c: &str, d: &str) -> (r: String)
    ensures
        r@ == a@ + b@ + c@ + d@,
{
    let mut out: String = cat3(a, b, c);
    out.append(d);
    out
}

/// Five texts in a row.
pub fn cat5(a: &str, b: &str, c: &str, d: &str, e: &str) -> (r: String)
    ensures
        r@ == a@ + b@ + c@ + d@ + e@,
{
    let mut out: String = cat4(a, b, c, d);
    out.append(e);
    out
}

/// The texts of `list` in a row, with `sep` between each two.
pub open spec fn joined(list: Seq<Seq<char>>, sep: Seq<char>) -> Seq<char>
    decreases list.len(),
{
    if list.len() == 0 {
        Seq::empty()
    } else if list.len() == 1 {
        list[0]
    } else {
        joined(list.drop_last(), sep) + sep + list.last()
    }
}

/// The texts of `list` in a row, with `sep` between each two.
pub fn join(list: &Vec<String>, sep: &str) -> (r: String)
    ensures
        r@ == joined(texts(list@), sep@),
{
    if list.len() == 0 {
        return String::new();
    }
    let mut out: String = list[0].clone();
    let mut i: usize = 1;
    proof {
        assert(texts(list@.take(1)) =~= seq![list@[0]@]);
    }
    while i < list.len()
        invariant
            1 <= i <= list.len(),
            out@ == joined(texts(list@.take(i as int)), sep@),
        decreases list.len() - i,
    {
        out.append(sep);
        out.append(list[i].as_str());
        proof {
            let t = texts(list@.take(i + 1));
            assert(t.drop_last() =~= texts(list@.take(i as int)));
            assert(t.last() == list@[i as int]@);
        }
        i = i + 1;
    }
    proof {
        assert(list@.take(list.len() as int) =~= list@);
    }
    out
}

/// `part` stands in `s` at `i`.
pub open spec fn stands_at(s: Seq<char>, part: Seq<char>, i: int) -> bool {
    0 <= i && i + part.len() <= s.len() && s.subrange(i, i + part.len()) == part
}

/// Where `part` first stands in `s` at or after `i`.
pub open spec fn first_at(s: Seq<char>, part: Seq<char>, i: int) -> Option<int>
    decreases s.len() + 1 - i,
{
    if i < 0 || i > s.len() {
        None
    } else if stands_at(s, part, i) {
        Some(i)
    } else {
        first_at(s, part, i + 1)
    }
}

/// Whether `part` stands in `s` at `i`.
fn matches_at(s: &Vec<char>, part: &Vec<char>, i: usize) -> (r: bool)
    requires
        i <= s.len(),
    ensures
        r == stands_at(s@, part@, i as int),
{
    if part.len() > s.len() - i {
        return false;
    }
    let mut k: usize = 0;
    while k < part.len()
        invariant
            i + part.len() <= s.len(),
            k <= part.len(),
            forall|j: int| 0 <= j < k ==> s@[i + j] == #[trigger] part@[j],
        decreases part.len() - k,
    {
        if s[i + k] != part[k] {
            proof {
                assert(s@.subrange(i as int, i + part.len())[k as int] != part@[k as int]);
            }
            return false;
        }
        k = k + 1;
    }
    proof {
        assert(s@.subrange(i as int, i + part.len()) =~= part@);
    }
    true
}

/// Where `part` first stands in `s` at or after `from`.
pub fn find_from(s: &Vec<char>, part: &Vec<char>, from: usize) -> (r: Option<usize>)
    requires
        from <= s.len(),
    ensures
        match r {
            Some(i) => first_at(s@, part@, from as int) == Some(i as int) && stands_at(
                s@,
                part@,
                i as int,
            ) && from <= i,
            None => first_at(s@, part@, from as int) is None,
        },
{
    let mut i: usize = from;
    loop
        invariant
            from <= i <= s.len(),
            first_at(s@, part@, from as int) == first_at(s@, part@, i as int),
        decreases s.len() + 1 - i,
    {
        if matches_at(s, part, i) {
            return Some(i);
        }
        if i == s.len() {
            assert(first_at(s@, part@, i + 1) is None);
            return None;
        }
        i = i + 1;
    }
}

/// Whether `s` begins with `part`.
pub fn starts_with(s: &str, part: &str) -> (r: bool)
    ensures
        r == stands_at(s@, part@, 0),
{
    matches_at(&chars(s), &chars(part), 0)
}

/// `s` without `part` at its end, where it ends so.
pub open spec fn without_suffix(s: Seq<char>, part: Seq<char>) -> Option<Seq<char>> {
    if stands_at(s, part, s.len() - part.len()) {
        Some(s.take(s.len() - part.len()))
    } else {
        None
    }
}

/// `s` without `part` at its end, where it ends so.
pub fn strip_suffix(s: &str, part: &str) -> (r: Option<String>)
    ensures
        text_opt(r) == without_suffix(s@, part@),
{
    let cs: Vec<char> = chars(s);
    let ps: Vec<char> = chars(part);
    if ps.len() > cs.len() {
        return None;
    }
    let end: usize = cs.len() - ps.len();
    if !matches_at(&cs, &ps, end) {
        return None;
    }
    let head: String = string_of(&cs, 0, end);
    proof {
        assert(head@ =~= s@.take(end as int));
    }
    Some(head)
}

/// `s` with the first `part` replaced by `with`.
pub open spec fn replaced_first(s: Seq<char>, part: Seq<char>, with: Seq<char>) -> Seq<char> {
    match first_at(s, part, 0) {
        Some(i) => s.take(i) + with + s.skip(i + part.len()),
        None => s,
    }
}

/// `s` with the first `part` replaced by `with`.
pub fn replace_first(s: &str, part: &str, with: &str) -> (r: String)
    ensures
        r@ == replaced_first(s@, part@, with@),
{
    let cs: Vec<char> = chars(s);
    let ps: Vec<char> = chars(part);
    match find_from(&cs, &ps, 0) {
        Some(i) => {
            let mut out: String = string_of(&cs, 0, i);
            out.append(with);
            let rest: String = string_of(&cs, i + ps.len(), cs.len());
            out.append(rest.as_str());
            proof {
                assert(cs@.subrange(0, i as int) =~= s@.take(i as int));
                assert(cs@.subrange(i + ps.len(), cs.len() as int) =~= s@.skip(i + ps.len()));
            }
            out
        },
        None => s.to_owned(),
    }
}

/// `s`, from `i` on, with every `part` replaced by `with`, left to right.
pub open spec fn replaced_from(s: Seq<char>, part: Seq<char>, with: Seq<char>, i: int) -> Seq<char>
    decreases s.len() + 1 - i,
{
    match first_at(s, part, i) {
        Some(k) => if part.len() > 0 && i <= k && stands_at(s, part, k) {
            s.subrange(i, k) + with + replaced_from(s, part, with, k + part.len())
        } else {
            s.skip(i)
        },
        None => s.skip(i),
    }
}

/// `s` with every `part` replaced by `with`.
pub open spec fn replaced(s: Seq<char>, part: Seq<char>, with: Seq<char>) -> Seq<char> {
    replaced_from(s, part, with, 0)
}

/// `s` with every `part`, which is not empty, replaced by `with`.
pub fn replace(s: &str, part: &str, with: &str) -> (r: String)
    requires
        part@.len() > 0,
    ensures
        r@ == replaced(s@, part@, with@),
{
    let cs: Vec<char> = chars(s);
    let ps: Vec<char> = chars(part);
    let mut out: String = String::new();
    let mut i: usize = 0;
    proof {
        assert(Seq::<char>::empty() + replaced(s@, part@, with@) =~= replaced(s@, part@, with@));
    }
    loop
        invariant
            i <= cs.len(),
            cs@ == s@,
            ps@ == part@,
            part@.len() > 0,
            out@ + replaced_from(s@, part@, with@, i as int) == replaced(s@, part@, with@),
        decreases cs.len() - i,
    {
        match find_from(&cs, &ps, i) {
            Some(k) => {
                let ghost prior = out@;
                let kept: String = string_of(&cs, i, k);
                out.append(kept.as_str());
                out.append(with);
                proof {
                    let rest = replaced_from(s@, part@, with@, k + ps.len());
                    assert(out@ + rest =~= prior + (s@.subrange(i as int, k as int) + with@
                        + rest));
                }
                i = k + ps.len();
            },
            None => {
                let rest: String = string_of(&cs, i, cs.len());
                proof {
                    assert(rest@ =~= s@.skip(i as int));
                }
                out.append(rest.as_str());
                return out;
            },
        }
    }
}

/// The pieces of `s` from `i` on, cut at every `sep`.
pub open spec fn pieces_from(s: Seq<char>, sep: Seq<char>, i: int) -> Seq<Seq<char>>
    decreases s.len() + 1 - i,
{
    match first_at(s, sep, i) {
        Some(k) => if sep.len() > 0 && i <= k && stands_at(s, sep, k) {
            seq![s.subrange(i, k)] + pieces_from(s, sep, k + sep.len())
        } else {
            seq![s.skip(i)]
        },
        None => seq![s.skip(i)],
    }
}

/// The pieces of `s`, cut at every `sep`.
pub open spec fn pieces(s: Seq<char>, sep: Seq<char>) -> Seq<Seq<char>> {
    pieces_from(s, sep, 0)
}

/// Joining two lists is joining what each is joined to.
pub proof fn lemma_joined_append(a: Seq<Seq<char>>, b: Seq<Seq<char>>, sep: Seq<char>)
    requires
        a.len() > 0,
        b.len() > 0,
    ensures
        joined(a + b, sep) == joined(a, sep) + sep + joined(b, sep),
    decreases b.len(),
{
    if b.len() == 1 {
        assert((a + b).drop_last() =~= a);
    } else {
        lemma_joined_append(a, b.drop_last(), sep);
        assert((a + b).drop_last() =~= a + b.drop_last());
        assert(joined(a + b, sep) =~= joined(a, sep) + sep + joined(b, sep));
    }
}

/// The pieces of a text, joined again, are the text.
pub proof fn lemma_pieces_join(s: Seq<char>, sep: Seq<char>, i: int)
    requires
        0 <= i <= s.len(),
        sep.len() > 0,
    ensures
        pieces_from(s, sep, i).len() > 0,
        joined(pieces_from(s, sep, i), sep) == s.skip(i),
    decreases s.len() + 1 - i,
{
    match first_at(s, sep, i) {
        Some(k) => {
            lemma_first_at(s, sep, i);
            let rest = pieces_from(s, sep, k + sep.len());
            lemma_pieces_join(s, sep, k + sep.len());
            lemma_joined_append(seq![s.subrange(i, k)], rest, sep);
            assert(s.skip(i) =~= s.subrange(i, k) + sep + s.skip(k + sep.len())) by {
                assert(s.subrange(k, k + sep.len()) == sep);
                assert forall|j: int| 0 <= j < sep.len() implies s[k + j] == sep[j] by {
                    assert(s.subrange(k, k + sep.len())[j] == sep[j]);
                }
            }
        },
        None => {},
    }
}

/// What `first_at` finds stands there, and stands nowhere before.
pub proof fn lemma_first_at(s: Seq<char>, part: Seq<char>, i: int)
    ensures
        match first_at(s, part, i) {
            Some(k) => i <= k && stands_at(s, part, k) && forall|j: int|
                i <= j < k ==> !stands_at(s, part, j),
            None => forall|j: int| 0 <= i <= j ==> !stands_at(s, part, j),
        },
    decreases s.len() + 1 - i,
{
    if 0 <= i <= s.len() && !stands_at(s, part, i) {
        lemma_first_at(s, part, i + 1);
    }
}

/// The pieces of `s`, cut at every `sep`, which is not empty.
pub fn split(s: &str, sep: &str) -> (r: Vec<String>)
    requires
        sep@.len() > 0,
    ensures
        texts(r@) == pieces(s@, sep@),
{
    let cs: Vec<char> = chars(s);
    let ps: Vec<char> = chars(sep);
    let mut out: Vec<String> = Vec::new();
    let mut i: usize = 0;
    proof {
        assert(texts(out@) + pieces(s@, sep@) =~= pieces(s@, sep@));
    }
    loop
        invariant
            i <= cs.len(),
            cs@ == s@,
            ps@ == sep@,
            sep@.len() > 0,
            texts(out@) + pieces_from(s@, sep@, i as int) == pieces(s@, sep@),
        decreases cs.len() - i,
    {
        let ghost prior = texts(out@);
        match find_from(&cs, &ps, i) {
            Some(k) => {
                out.push(string_of(&cs, i, k));
                proof {
                    let rest = pieces_from(s@, sep@, k + ps.len());
                    assert(texts(out@) =~= prior.push(s@.subrange(i as int, k as int)));
                    assert(texts(out@) + rest =~= prior + (seq![s@.subrange(i as int, k as int)]
                        + rest));
                }
                i = k + ps.len();
            },
            None => {
                out.push(string_of(&cs, i, cs.len()));
                proof {
                    assert(cs@.subrange(i as int, cs.len() as int) =~= s@.skip(i as int));
                    assert(texts(out@) =~= prior + seq![s@.skip(i as int)]);
                }
                return out;
            },
        }
    }
}

/// `a` does not come after `b` in the order of their code points.
pub open spec fn text_le(a: Seq<char>, b: Seq<char>) -> bool
    decreases a.len(),
{
    if a.len() == 0 {
        true
    } else if b.len() == 0 {
        false
    } else if a[0] != b[0] {
        a[0] < b[0]
    } else {
        text_le(a.skip(1), b.skip(1))
    }
}

/// Whether `a` does not come after `b` in the order of their code points.
pub fn str_le(a: &str, b: &str) -> (r: bool)
    ensures
        r == text_le(a@, b@),
{
    let x: Vec<char> = chars(a);
    let y: Vec<char> = chars(b);
    let mut i: usize = 0;
    proof {
        assert(x@.skip(0) =~= x@);
        assert(y@.skip(0) =~= y@);
    }
    while i < x.len()
        invariant
            i <= x.len(),
            i <= y.len(),
            x@ == a@,
            y@ == b@,
            text_le(x@, y@) == text_le(x@.skip(i as int), y@.skip(i as int)),
        decreases x.len() - i,
    {
        proof {
            assert(x@.skip(i as int).len() > 0);
            assert(x@.skip(i as int)[0] == x@[i as int]);
        }
        if i == y.len() {
            proof {
                assert(y@.skip(i as int).len() == 0);
            }
            return false;
        }
        proof {
            assert(y@.skip(i as int)[0] == y@[i as int]);
        }
        if x[i] != y[i] {
            return x[i] < y[i];
        }
        proof {
            assert(x@.skip(i as int).skip(1) =~= x@.skip(i + 1));
            assert(y@.skip(i as int).skip(1) =~= y@.skip(i + 1));
        }
        i = i + 1;
    }
    true
}

/// `s` without the `c`s it ends with.
pub open spec fn without_trailing(s: Seq<char>, c: char) -> Seq<char>
    decreases s.len(),
{
    if s.len() > 0 && s.last() == c {
        without_trailing(s.drop_last(), c)
    } else {
        s
    }
}

/// `s` without the `c`s it ends with.
pub fn trim_end_matches(s: &str, c: char) -> (r: String)
    ensures
        r@ == without_trailing(s@, c),
{
    let cs: Vec<char> = chars(s);
    let mut to: usize = cs.len();
    proof {
        assert(cs@.take(to as int) =~= cs@);
    }
    while to > 0 && cs[to - 1] == c
        invariant
            to <= cs.len(),
            without_trailing(cs@, c) == without_trailing(cs@.take(to as int), c),
        decreases to,
    {
        proof {
            assert(cs@.take(to as int).drop_last() =~= cs@.take(to - 1));
        }
        to = to - 1;
    }
    proof {
        if to > 0 {
            assert(cs@.take(to as int).last() == cs@[to - 1]);
        }
        assert(cs@.subrange(0, to as int) =~= cs@.take(to as int));
    }
    string_of(&cs, 0, to)
}

/// Trimming takes white space off both ends and nothing else: what it takes off
/// in front and behind is white space, and what is left neither starts nor ends
/// with any. A text of white space alone is trimmed to nothing, and no other is.
pub proof fn trimming_takes_white_space_off_the_ends(s: Seq<char>) -> (r: (int, int))
    ensures
        0 <= r.0 <= r.1 <= s.len(),
        trimmed(s) == s.subrange(r.0, r.1),
        forall|i: int| 0 <= i < r.0 ==> white_space(#[trigger] s[i]),
        forall|i: int| r.1 <= i < s.len() ==> white_space(#[trigger] s[i]),
        r.0 < r.1 ==> !white_space(s[r.0]) && !white_space(s[r.1 - 1]),
        trimmed(s).len() == 0 <==> forall|i: int| 0 <= i < s.len() ==> white_space(#[trigger] s[i]),
{
    let from = lemma_trim_start(s);
    let rest = s.skip(from);
    let to = lemma_trim_end(rest);
    assert(rest.take(to) =~= s.subrange(from, from + to));
    assert forall|i: int| from + to <= i < s.len() implies white_space(#[trigger] s[i]) by {
        assert(rest[i - from] == s[i]);
    }
    if to > 0 {
        assert(rest[to - 1] == s[from + to - 1]);
        if from == s.len() {
            assert(rest.len() == 0);
        }
        assert(!white_space(s[from]));
    }
    (from, from + to)
}

/// Replacing leaves a text without the part as it is.
pub proof fn replacing_an_absent_part_changes_nothing(
    s: Seq<char>,
    part: Seq<char>,
    with: Seq<char>,
)
    requires
        forall|i: int| !#[trigger] stands_at(s, part, i),
    ensures
        replaced(s, part, with) == s,
        replaced_first(s, part, with) == s,
{
    lemma_first_at(s, part, 0);
    assert(s.skip(0) =~= s);
}

/// The first occurrence of a part is replaced where it stands: what is before it
/// has no occurrence of its own and stays, and so does what is behind it.
pub proof fn first_occurrence_is_replaced(
    s: Seq<char>,
    part: Seq<char>,
    with: Seq<char>,
    k: int,
)
    requires
        stands_at(s, part, k),
        forall|i: int| 0 <= i < k ==> !#[trigger] stands_at(s, part, i),
    ensures
        replaced_first(s, part, with) == s.take(k) + with + s.skip(k + part.len()),
{
    lemma_first_at(s, part, 0);
    match first_at(s, part, 0) {
        Some(i) => {
            if i < k {
                assert(stands_at(s, part, i));
            } else if k < i {
                assert(!stands_at(s, part, k));
            }
        },
        None => {
            assert(!stands_at(s, part, k));
        },
    }
}

/// Texts are ordered by their first characters, then by what follows: a common
/// start does not count, a text comes after every start of its own, and where
/// first characters differ the lesser goes first.
pub proof fn texts_are_ordered_by_characters(start: Seq<char>, a: Seq<char>, b: Seq<char>)
    ensures
        text_le(start + a, start + b) == text_le(a, b),
        text_le(start, start + a),
        a.len() > 0 ==> !text_le(start + a, start),
        a.len() > 0 && b.len() > 0 && a[0] < b[0] ==> text_le(a, b) && !text_le(b, a),
    decreases start.len(),
{
    if start.len() == 0 {
        assert(start + a =~= a);
        assert(start + b =~= b);
    } else {
        let rest = start.skip(1);
        texts_are_ordered_by_characters(rest, a, b);
        assert((start + a).skip(1) =~= rest + a);
        assert((start + b).skip(1) =~= rest + b);
    }
}

/// A text has a suffix taken off exactly where it ends with it.
pub proof fn suffixes_are_taken_off_the_end(s: Seq<char>, stem: Seq<char>, part: Seq<char>)
    ensures
        without_suffix(s, part) == Some(stem) <==> s == stem + part,
{
    if s == stem + part {
        assert(s.subrange(s.len() - part.len(), s.len() as int) =~= part);
        assert(s.take(s.len() - part.len()) =~= stem);
    }
    if without_suffix(s, part) == Some(stem) {
        assert(s =~= s.take(s.len() - part.len()) + s.subrange(
            s.len() - part.len(),
            s.len() as int,
        ));
    }
}

/// Only the character is taken off the end, as often as it stands there.
pub proof fn trailing_characters_are_taken_off(s: Seq<char>, c: char) -> (k: int)
    ensures
        0 <= k <= s.len(),
        without_trailing(s, c) == s.take(k),
        forall|i: int| k <= i < s.len() ==> #[trigger] s[i] == c,
        k > 0 ==> s[k - 1] != c,
    decreases s.len(),
{
    if s.len() > 0 && s.last() == c {
        let k = trailing_characters_are_taken_off(s.drop_last(), c);
        assert(s.drop_last().take(k) =~= s.take(k));
        assert forall|i: int| k <= i < s.len() implies #[trigger] s[i] == c by {
            if i < s.len() - 1 {
                assert(s.drop_last()[i] == s[i]);
            }
        }
        k
    } else {
        assert(s.take(s.len() as int) =~= s);
        s.len() as int
    }
}

} // verus!
