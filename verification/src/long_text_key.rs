//! `long_text_key`: a `text!` or `Text::localized` key longer than
//! `long_text_key_words` words is prose parked in the key position.

use crate::diagnostics;
use crate::diagnostics::{Diagnostic, DiagnosticView};
use crate::hir::{Hir, Span};
use crate::lint::Lint;
use crate::text;
use vstd::prelude::*;

verus! {

/// A word starts at `i`.
pub open spec fn word_starts(s: Seq<char>, i: int) -> bool {
    !text::white_space(s[i]) && (i == 0 || text::white_space(s[i - 1]))
}

/// How many words start in the first `n` characters.
pub open spec fn words_upto(s: Seq<char>, n: int) -> nat
    decreases n,
{
    if n <= 0 {
        0
    } else {
        words_upto(s, n - 1) + (if word_starts(s, n - 1) {
            1nat
        } else {
            0
        })
    }
}

/// How many words a text has: runs of characters that are no white space.
pub open spec fn word_count(s: Seq<char>) -> nat {
    words_upto(s, s.len() as int)
}

/// How many words a text has.
pub fn count_words(s: &str) -> (r: usize)
    ensures
        r == word_count(s@),
{
    let cs: Vec<char> = text::chars(s);
    let mut count: usize = 0;
    let mut i: usize = 0;
    while i < cs.len()
        invariant
            i <= cs.len(),
            cs@ == s@,
            count <= i,
            count == words_upto(s@, i as int),
        decreases cs.len() - i,
    {
        if !text::is_white_space(cs[i]) && (i == 0 || text::is_white_space(cs[i - 1])) {
            count = count + 1;
        }
        i = i + 1;
    }
    count
}

/// The lint pass.
#[derive(Debug)]
pub struct LongTextKey {
    /// `long_text_key_words`: more words than this are too many.
    pub limit: usize,
}

/// What is said of a key.
pub open spec fn key_finding(limit: usize, span: Span, key: Seq<char>) -> Option<DiagnosticView> {
    if word_count(key) <= limit {
        None
    } else {
        Some(
            DiagnosticView::with_help(
                Lint::LongTextKey,
                span,
                "this text key is "@ + text::decimal(word_count(key))
                    + " words; keys longer than "@ + text::decimal(limit as nat)
                    + " words break every translation on a copy edit"@,
                "use a short catalog key such as `\"$about_blurb\"` and put the prose in `i18n/<locale>.toml`"@,
            ),
        )
    }
}

/// What is said of an expression.
pub open spec fn finding_at(hir: Hir, limit: usize, n: usize) -> Option<DiagnosticView> {
    match hir.node(n).text_key {
        Some(key) => key_finding(limit, key.span, key.text@),
        None => None,
    }
}

/// A longer limit reports no more: what it reports, the shorter one does too.
pub proof fn longer_limits_report_less(short: usize, long: usize, span: Span, key: Seq<char>)
    requires
        short <= long,
        key_finding(long, span, key) is Some,
    ensures
        key_finding(short, span, key) is Some,
{
}

impl LongTextKey {
    /// A pass with the configured limit, or 12 words.
    pub fn new(words: Option<usize>) -> (r: LongTextKey)
        ensures
            r.limit == (match words {
                Some(words) => words,
                None => 12,
            }),
    {
        LongTextKey {
            limit: match words {
                Some(words) => words,
                None => 12,
            },
        }
    }

    /// The finding when the key's word count exceeds the limit.
    pub fn report(&self, span: Span, key: &str) -> (r: Option<Diagnostic>)
        ensures
            diagnostics::found(r) == key_finding(self.limit, span, key@),
    {
        let words: usize = count_words(key);
        if words <= self.limit {
            return None;
        }
        let count: String = text::to_decimal(words as u64);
        let limit: String = text::to_decimal(self.limit as u64);
        Some(
            Diagnostic::with_help(
                Lint::LongTextKey,
                span,
                text::cat5(
                    "this text key is ",
                    count.as_str(),
                    " words; keys longer than ",
                    limit.as_str(),
                    " words break every translation on a copy edit",
                ).as_str(),
                "use a short catalog key such as `\"$about_blurb\"` and put the prose in `i18n/<locale>.toml`".to_owned(),
            ),
        )
    }

    /// Flags a localization key longer than the limit.
    pub fn check_expr(&self, hir: &Hir, n: usize) -> (r: Option<Diagnostic>)
        requires
            hir.has(n),
        ensures
            diagnostics::found(r) == finding_at(*hir, self.limit, n),
    {
        match &hir.nodes[n].text_key {
            Some(key) => self.report(key.span, key.text.as_str()),
            None => None,
        }
    }
}

proof fn lemma_words_prefix(s: Seq<char>, t: Seq<char>, n: int)
    requires
        0 <= n <= s.len(),
        n <= t.len(),
        forall|i: int| 0 <= i < n ==> #[trigger] s[i] == t[i],
    ensures
        words_upto(s, n) == words_upto(t, n),
    decreases n,
{
    if n > 0 {
        lemma_words_prefix(s, t, n - 1);
        assert(s[n - 1] == t[n - 1]);
        if n > 1 {
            assert(s[n - 2] == t[n - 2]);
        }
    }
}

proof fn lemma_words_behind(a: Seq<char>, c: char, b: Seq<char>, n: int)
    requires
        text::white_space(c),
        0 <= n <= b.len(),
    ensures
        words_upto(a.push(c) + b, a.len() + 1 + n) == word_count(a) + words_upto(b, n),
    decreases n,
{
    let s = a.push(c) + b;
    if n == 0 {
        lemma_words_prefix(s, a, a.len() as int);
        assert(s[a.len() as int] == c);
    } else {
        lemma_words_behind(a, c, b, n - 1);
        let i = a.len() + n;
        assert(s[i as int] == b[n - 1]);
        if n > 1 {
            assert(s[i - 1] == b[n - 2]);
        } else {
            assert(s[i - 1] == c);
        }
    }
}

/// White space parts words: the words of a text are those in front of the white
/// space and those behind it.
pub proof fn words_add_up(a: Seq<char>, c: char, b: Seq<char>)
    requires
        text::white_space(c),
    ensures
        word_count(a.push(c) + b) == word_count(a) + word_count(b),
{
    lemma_words_behind(a, c, b, b.len() as int);
}

proof fn lemma_one_word(s: Seq<char>, n: int)
    requires
        0 < n <= s.len(),
        forall|i: int| 0 <= i < s.len() ==> !text::white_space(#[trigger] s[i]),
    ensures
        words_upto(s, n) == 1,
    decreases n,
{
    assert(!text::white_space(s[n - 1]));
    if n > 1 {
        lemma_one_word(s, n - 1);
        assert(!text::white_space(s[n - 2]));
    } else {
        assert(words_upto(s, 0) == 0);
    }
}

/// Characters without white space between them are one word, and no characters
/// are none.
pub proof fn characters_in_a_row_are_one_word(s: Seq<char>)
    requires
        forall|i: int| 0 <= i < s.len() ==> !text::white_space(#[trigger] s[i]),
    ensures
        word_count(s) == (if s.len() == 0 {
            0nat
        } else {
            1
        }),
{
    if s.len() > 0 {
        lemma_one_word(s, s.len() as int);
    }
}

/// A key is reported exactly where it has more words than the limit allows, and
/// the message gives their number.
pub proof fn keys_over_the_limit_are_reported(limit: usize, span: Span, key: Seq<char>)
    ensures
        key_finding(limit, span, key) is Some <==> word_count(key) > limit,
        key_finding(limit, span, key) matches Some(finding) ==> finding.span == span
            && finding.message == "this text key is "@ + text::decimal(word_count(key))
            + " words; keys longer than "@ + text::decimal(limit as nat)
            + " words break every translation on a copy edit"@,
{
}

} // verus!
