//! Format specifications, read: the law that a placeholder written anew keeps the
//! options and the trait it had.

use crate::format_args;
use crate::format_args::{
    FormatAlignment, FormatCount, FormatDebugHex, FormatOptions, FormatSign, FormatTrait,
};
use crate::text;
use vstd::prelude::*;

verus! {

/// The character is a decimal digit.
pub open spec fn is_digit(c: char) -> bool {
    '0' <= c && c <= '9'
}

/// How many digits the text starts with.
pub open spec fn digits_ahead(s: Seq<char>) -> nat
    decreases s.len(),
{
    if s.len() == 0 || !is_digit(s[0]) {
        0
    } else {
        1 + digits_ahead(s.skip(1))
    }
}

/// The number that decimal digits stand for.
pub open spec fn number(s: Seq<char>) -> nat
    decreases s.len(),
{
    if s.len() == 0 {
        0
    } else {
        number(s.drop_last()) * 10 + (s.last() as nat - '0' as nat) as nat
    }
}

/// The alignment that a character asks for.
pub open spec fn alignment(c: char) -> Option<FormatAlignment> {
    if c == '<' {
        Some(FormatAlignment::Left)
    } else if c == '>' {
        Some(FormatAlignment::Right)
    } else if c == '^' {
        Some(FormatAlignment::Center)
    } else {
        None
    }
}

/// `[[fill]align]` at the front, and what follows.
pub open spec fn read_alignment(s: Seq<char>) -> (
    (Option<char>, Option<FormatAlignment>),
    Seq<char>,
) {
    if s.len() >= 2 && alignment(s[1]) is Some {
        ((Some(s[0]), alignment(s[1])), s.skip(2))
    } else if s.len() >= 1 && alignment(s[0]) is Some {
        ((None, alignment(s[0])), s.skip(1))
    } else {
        ((None, None), s)
    }
}

/// `[sign]` at the front, and what follows.
pub open spec fn read_sign(s: Seq<char>) -> (Option<FormatSign>, Seq<char>) {
    if s.len() >= 1 && s[0] == '+' {
        (Some(FormatSign::Plus), s.skip(1))
    } else if s.len() >= 1 && s[0] == '-' {
        (Some(FormatSign::Minus), s.skip(1))
    } else {
        (None, s)
    }
}

/// The flag at the front, and what follows.
pub open spec fn read_flag(s: Seq<char>, flag: char) -> (bool, Seq<char>) {
    if s.len() >= 1 && s[0] == flag {
        (true, s.skip(1))
    } else {
        (false, s)
    }
}

/// A number at the front, and what follows.
pub open spec fn read_count(s: Seq<char>) -> (Option<FormatCount>, Seq<char>) {
    let k = digits_ahead(s) as int;
    if k == 0 {
        (None, s)
    } else {
        (Some(FormatCount::Literal(number(s.take(k)) as u16)), s.skip(k))
    }
}

/// `['.' precision]` at the front, and what follows.
pub open spec fn read_precision(s: Seq<char>) -> (Option<FormatCount>, Seq<char>) {
    if s.len() >= 1 && s[0] == '.' {
        read_count(s.skip(1))
    } else {
        (None, s)
    }
}

/// The trait that the rest of a specification names, with the hex mark of `?`.
pub open spec fn read_trait(s: Seq<char>) -> Option<(Option<FormatDebugHex>, FormatTrait)> {
    if s.len() == 0 {
        Some((None, FormatTrait::Display))
    } else if s.len() == 2 && s[1] == '?' {
        if s[0] == 'x' {
            Some((Some(FormatDebugHex::Lower), FormatTrait::Debug))
        } else if s[0] == 'X' {
            Some((Some(FormatDebugHex::Upper), FormatTrait::Debug))
        } else {
            None
        }
    } else if s.len() != 1 {
        None
    } else if s[0] == '?' {
        Some((None, FormatTrait::Debug))
    } else if s[0] == 'x' {
        Some((None, FormatTrait::LowerHex))
    } else if s[0] == 'X' {
        Some((None, FormatTrait::UpperHex))
    } else if s[0] == 'o' {
        Some((None, FormatTrait::Octal))
    } else if s[0] == 'b' {
        Some((None, FormatTrait::Binary))
    } else if s[0] == 'p' {
        Some((None, FormatTrait::Pointer))
    } else if s[0] == 'e' {
        Some((None, FormatTrait::LowerExp))
    } else if s[0] == 'E' {
        Some((None, FormatTrait::UpperExp))
    } else {
        None
    }
}

/// A specification, read from its front: alignment, sign, `#`, `0`, width,
/// precision and trait.
pub open spec fn read_spec(s: Seq<char>) -> Option<(FormatOptions, FormatTrait)> {
    let ((fill, alignment), s) = read_alignment(s);
    let (sign, s) = read_sign(s);
    let (alternate, s) = read_flag(s, '#');
    let (zero_pad, s) = read_flag(s, '0');
    let (width, s) = read_count(s);
    let (precision, s) = read_precision(s);
    match read_trait(s) {
        Some((debug_hex, trait_)) => Some(
            (
                FormatOptions {
                    width,
                    precision,
                    alignment,
                    fill,
                    sign,
                    alternate,
                    zero_pad,
                    debug_hex,
                },
                trait_,
            ),
        ),
        None => None,
    }
}

/// The options can be written: only an alignment has a fill, only `?` has a hex
/// mark, and a width of zero is one only behind the `0` flag.
pub open spec fn expressible(options: FormatOptions, trait_: FormatTrait) -> bool {
    &&& options.fill is Some ==> options.alignment is Some
    &&& options.debug_hex is Some ==> trait_ == FormatTrait::Debug
    &&& options.width == Some(FormatCount::Literal(0)) ==> options.zero_pad
}

proof fn lemma_decimal(n: nat)
    ensures
        text::decimal(n).len() > 0,
        forall|i: int| 0 <= i < text::decimal(n).len() ==> is_digit(#[trigger] text::decimal(n)[i]),
        number(text::decimal(n)) == n,
        n > 0 ==> text::decimal(n)[0] != '0',
    decreases n,
{
    let s = text::decimal(n);
    if n >= 10 {
        lemma_decimal(n / 10);
        assert(s.drop_last() =~= text::decimal(n / 10));
        assert(s.last() == text::digit(n % 10));
    } else {
        assert(s.drop_last() =~= seq![]);
        assert(number(seq![]) == 0);
        assert(s.last() == text::digit(n));
    }
}

proof fn lemma_digits_ahead(d: Seq<char>, rest: Seq<char>)
    requires
        forall|i: int| 0 <= i < d.len() ==> is_digit(#[trigger] d[i]),
        rest.len() == 0 || !is_digit(rest[0]),
    ensures
        digits_ahead(d + rest) == d.len(),
    decreases d.len(),
{
    if d.len() == 0 {
        assert(d + rest =~= rest);
    } else {
        let s = d + rest;
        assert(s[0] == d[0]);
        assert(s.skip(1) =~= d.skip(1) + rest);
        lemma_digits_ahead(d.skip(1), rest);
    }
}

proof fn lemma_read_count(n: u16, rest: Seq<char>)
    requires
        rest.len() == 0 || !is_digit(rest[0]),
    ensures
        read_count(text::decimal(n as nat) + rest) == (Some(FormatCount::Literal(n)), rest),
{
    let d = text::decimal(n as nat);
    lemma_decimal(n as nat);
    lemma_digits_ahead(d, rest);
    assert((d + rest).take(d.len() as int) =~= d);
    assert((d + rest).skip(d.len() as int) =~= rest);
}

/// No character of the text asks for an alignment.
pub open spec fn unaligned(s: Seq<char>) -> bool {
    forall|i: int| 0 <= i < s.len() ==> alignment(#[trigger] s[i]) is None
}

/// The text starts with none of the marks in front of a trait.
pub open spec fn unmarked(s: Seq<char>, dot: bool, zero: bool, digit: bool, sharp: bool) -> bool {
    s.len() > 0 ==> {
        &&& s[0] != '+' && s[0] != '-'
        &&& sharp ==> s[0] != '#'
        &&& zero ==> s[0] != '0'
        &&& digit ==> !is_digit(s[0])
        &&& dot ==> s[0] != '.'
    }
}

proof fn lemma_trait(options: FormatOptions, trait_: FormatTrait)
    requires
        expressible(options, trait_),
    ensures
        ({
            let s = options.hex_text() + trait_.mark();
            &&& unaligned(s)
            &&& unmarked(s, true, true, true, true)
            &&& read_trait(s) == Some((options.debug_hex, trait_))
        }),
{
}

proof fn lemma_precision(options: FormatOptions, rest: Seq<char>)
    requires
        options.precision != Some(FormatCount::Argument),
        unaligned(rest),
        unmarked(rest, true, true, true, true),
    ensures
        ({
            let s = options.precision_text() + rest;
            &&& unaligned(s)
            &&& unmarked(s, false, true, true, true)
            &&& read_precision(s) == (options.precision, rest)
        }),
{
    let s = options.precision_text() + rest;
    match options.precision {
        Some(FormatCount::Literal(n)) => {
            let d = text::decimal(n as nat);
            lemma_decimal(n as nat);
            lemma_read_count(n, rest);
            assert(s.skip(1) =~= d + rest);
            assert forall|i: int| 0 <= i < s.len() implies alignment(#[trigger] s[i]) is None by {
                if 1 <= i && i < 1 + d.len() {
                    assert(s[i] == d[i - 1]);
                } else if i > 0 {
                    assert(s[i] == rest[i - 1 - d.len()]);
                }
            }
        },
        _ => {
            assert(s =~= rest);
        },
    }
}

proof fn lemma_width(options: FormatOptions, rest: Seq<char>)
    requires
        options.width != Some(FormatCount::Argument),
        unaligned(rest),
        unmarked(rest, false, true, true, true),
    ensures
        ({
            let s = options.width_text() + rest;
            &&& unaligned(s)
            &&& unmarked(s, false, options.width != Some(FormatCount::Literal(0)), false, true)
            &&& read_count(s) == (options.width, rest)
        }),
{
    let s = options.width_text() + rest;
    match options.width {
        Some(FormatCount::Literal(n)) => {
            let d = text::decimal(n as nat);
            lemma_decimal(n as nat);
            lemma_read_count(n, rest);
            assert(s[0] == d[0]);
            assert forall|i: int| 0 <= i < s.len() implies alignment(#[trigger] s[i]) is None by {
                if i < d.len() {
                    assert(s[i] == d[i]);
                } else {
                    assert(s[i] == rest[i - d.len()]);
                }
            }
        },
        _ => {
            assert(s =~= rest);
        },
    }
}

proof fn lemma_flag(set: bool, flag: char, rest: Seq<char>)
    requires
        flag == '#' || flag == '0',
        unaligned(rest),
        unmarked(rest, false, false, false, true),
        !set && rest.len() > 0 ==> rest[0] != flag,
    ensures
        ({
            let s = (if set {
                seq![flag]
            } else {
                seq![]
            }) + rest;
            &&& unaligned(s)
            &&& unmarked(s, false, false, false, flag == '0')
            &&& read_flag(s, flag) == (set, rest)
        }),
{
    let s = (if set {
        seq![flag]
    } else {
        seq![]
    }) + rest;
    if set {
        assert(s.skip(1) =~= rest);
        assert forall|i: int| 0 <= i < s.len() implies alignment(#[trigger] s[i]) is None by {
            if i > 0 {
                assert(s[i] == rest[i - 1]);
            }
        }
    } else {
        assert(s =~= rest);
    }
}

proof fn lemma_sign(options: FormatOptions, rest: Seq<char>)
    requires
        unaligned(rest),
        unmarked(rest, false, false, false, false),
    ensures
        unaligned(options.sign_text() + rest),
        read_sign(options.sign_text() + rest) == (options.sign, rest),
{
    let s = options.sign_text() + rest;
    if options.sign is Some {
        assert(s.skip(1) =~= rest);
        assert forall|i: int| 0 <= i < s.len() implies alignment(#[trigger] s[i]) is None by {
            if i > 0 {
                assert(s[i] == rest[i - 1]);
            }
        }
    } else {
        assert(s =~= rest);
    }
}

proof fn lemma_alignment(options: FormatOptions, rest: Seq<char>)
    requires
        options.fill is Some ==> options.alignment is Some,
        unaligned(rest),
    ensures
        read_alignment(options.align_text() + rest) == (
            (options.fill, options.alignment),
            rest,
        ),
{
    let s = options.align_text() + rest;
    match (options.alignment, options.fill) {
        (Some(_), Some(_)) => {
            assert(s.skip(2) =~= rest);
        },
        (Some(_), None) => {
            assert(s.skip(1) =~= rest);
            assert(rest.len() > 0 ==> s[1] == rest[0]);
        },
        (None, _) => {
            assert(s =~= rest);
        },
    }
}

proof fn lemma_in_row(
    a: Seq<char>,
    b: Seq<char>,
    c: Seq<char>,
    d: Seq<char>,
    e: Seq<char>,
    f: Seq<char>,
    g: Seq<char>,
    h: Seq<char>,
)
    ensures
        a + b + (c + d) + e + f + g + h == a + (b + (c + (d + (e + (f + (g + h)))))),
{
    assert(a + b + (c + d) + e + f + g + h =~= a + (b + (c + (d + (e + (f + (g + h)))))));
}

/// The rest of a specification from each of its parts on.
spec fn rest_of(options: FormatOptions, trait_: FormatTrait, part: nat) -> Seq<char>
    decreases 6 - part,
{
    if part >= 6 {
        options.hex_text() + trait_.mark()
    } else {
        (if part == 5 {
            options.precision_text()
        } else if part == 4 {
            options.width_text()
        } else if part == 3 {
            if options.zero_pad {
                seq!['0']
            } else {
                seq![]
            }
        } else if part == 2 {
            if options.alternate {
                seq!['#']
            } else {
                seq![]
            }
        } else if part == 1 {
            options.sign_text()
        } else {
            options.align_text()
        }) + rest_of(options, trait_, part + 1)
    }
}

proof fn lemma_back(options: FormatOptions, trait_: FormatTrait)
    requires
        expressible(options, trait_),
        options.width != Some(FormatCount::Argument),
        options.precision != Some(FormatCount::Argument),
    ensures
        read_precision(rest_of(options, trait_, 5)) == (
            options.precision,
            rest_of(options, trait_, 6),
        ),
        read_count(rest_of(options, trait_, 4)) == (options.width, rest_of(options, trait_, 5)),
        read_flag(rest_of(options, trait_, 3), '0') == (
            options.zero_pad,
            rest_of(options, trait_, 4),
        ),
        read_flag(rest_of(options, trait_, 2), '#') == (
            options.alternate,
            rest_of(options, trait_, 3),
        ),
        read_sign(rest_of(options, trait_, 1)) == (options.sign, rest_of(options, trait_, 2)),
        read_alignment(rest_of(options, trait_, 0)) == (
            (options.fill, options.alignment),
            rest_of(options, trait_, 1),
        ),
{
    lemma_trait(options, trait_);
    lemma_precision(options, rest_of(options, trait_, 6));
    lemma_width(options, rest_of(options, trait_, 5));
    lemma_flag(options.zero_pad, '0', rest_of(options, trait_, 4));
    lemma_flag(options.alternate, '#', rest_of(options, trait_, 3));
    lemma_sign(options, rest_of(options, trait_, 2));
    lemma_alignment(options, rest_of(options, trait_, 1));
}

proof fn lemma_spec_back(
    options: FormatOptions,
    trait_: FormatTrait,
    s0: Seq<char>,
    s1: Seq<char>,
    s2: Seq<char>,
    s3: Seq<char>,
    s4: Seq<char>,
    s5: Seq<char>,
    s6: Seq<char>,
)
    requires
        read_alignment(s0) == ((options.fill, options.alignment), s1),
        read_sign(s1) == (options.sign, s2),
        read_flag(s2, '#') == (options.alternate, s3),
        read_flag(s3, '0') == (options.zero_pad, s4),
        read_count(s4) == (options.width, s5),
        read_precision(s5) == (options.precision, s6),
        read_trait(s6) == Some((options.debug_hex, trait_)),
    ensures
        read_spec(s0) == Some((options, trait_)),
{
}

proof fn lemma_rows(options: FormatOptions, trait_: FormatTrait)
    ensures
        options.align_text() + options.sign_text() + options.flag_text() + options.width_text()
            + options.precision_text() + options.hex_text() + trait_.mark() == rest_of(
            options,
            trait_,
            0,
        ),
{
    let sharp = if options.alternate {
        seq!['#']
    } else {
        seq![]
    };
    let zero = if options.zero_pad {
        seq!['0']
    } else {
        seq![]
    };
    lemma_in_row(
        options.align_text(),
        options.sign_text(),
        sharp,
        zero,
        options.width_text(),
        options.precision_text(),
        options.hex_text(),
        trait_.mark(),
    );
    assert(options.flag_text() == sharp + zero);
    reveal_with_fuel(rest_of, 7);
}

/// What a placeholder is written with reads back as the options and the trait
/// that it had.
pub proof fn options_read_back(options: FormatOptions, trait_: FormatTrait)
    requires
        expressible(options, trait_),
    ensures
        format_args::options_text(options, trait_) matches Some(written) ==> {
            &&& written.len() > 0 ==> written[0] == ':' && read_spec(written.skip(1)) == Some(
                (options, trait_),
            )
            &&& written.len() == 0 ==> read_spec(written) == Some((options, trait_))
        },
        format_args::options_text(options, trait_) is None <==> (options.width == Some(
            FormatCount::Argument,
        ) || options.precision == Some(FormatCount::Argument)),
{
    lemma_rows(options, trait_);
    let all = rest_of(options, trait_, 0);
    if let Some(written) = format_args::options_text(options, trait_) {
        if written.len() > 0 {
            assert(written.skip(1) =~= all);
        } else {
            assert(written == all);
        }
        lemma_trait(options, trait_);
        lemma_back(options, trait_);
        lemma_spec_back(
            options,
            trait_,
            all,
            rest_of(options, trait_, 1),
            rest_of(options, trait_, 2),
            rest_of(options, trait_, 3),
            rest_of(options, trait_, 4),
            rest_of(options, trait_, 5),
            rest_of(options, trait_, 6),
        );
    }
}

/// A number in decimal reads back as the number, digit by digit, and does not
/// start with a zero unless it is zero.
pub proof fn decimals_read_back(n: nat)
    ensures
        number(text::decimal(n)) == n,
        text::decimal(n).len() > 0,
        forall|i: int| 0 <= i < text::decimal(n).len() ==> is_digit(#[trigger] text::decimal(n)[i]),
        n > 0 ==> text::decimal(n)[0] != '0',
{
    lemma_decimal(n);
}

} // verus!
