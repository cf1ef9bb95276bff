//! Source files by byte position.

use crate::hir::Span;
use vstd::prelude::*;
use vstd::utf8::*;

verus! {

/// A source file: where it starts, and its text where that is at hand.
#[derive(Debug)]
pub struct SourceFile {
    pub start_pos: u32,
    pub src: Option<String>,
}

/// The source files, in the order of their places.
#[derive(Debug)]
pub struct SourceMap {
    pub files: Vec<SourceFile>,
}

/// The last of the first `n` files that starts at or before `pos`.
pub open spec fn file_upto(files: Seq<SourceFile>, pos: u32, n: int) -> Option<int>
    decreases n,
{
    if n <= 0 {
        None
    } else if files[n - 1].start_pos <= pos {
        Some(n - 1)
    } else {
        file_upto(files, pos, n - 1)
    }
}

/// Where the spaces and tabs before the byte `i` begin.
pub open spec fn blanks_start(bytes: Seq<u8>, i: int) -> int
    decreases i,
{
    if i > 0 && (bytes[i - 1] == 0x20 || bytes[i - 1] == 0x09) {
        blanks_start(bytes, i - 1)
    } else {
        i
    }
}

/// Where the line that the byte `i` is on ends, before its newline.
pub open spec fn line_end(bytes: Seq<u8>, i: int) -> int
    decreases bytes.len() - i,
{
    if i < bytes.len() && bytes[i] != 0x0a {
        line_end(bytes, i + 1)
    } else {
        i
    }
}

impl SourceFile {
    /// The text of the file holds the span, and the file's places fit their 32
    /// bits.
    pub open spec fn holds(self, span: Span) -> bool {
        match self.src {
            Some(src) => {
                &&& self.start_pos <= span.lo <= span.hi
                &&& span.hi <= self.start_pos + encode_utf8(src@).len() <= u32::MAX
            },
            None => false,
        }
    }

    /// The span with the blanks before it and the rest of its last line.
    pub open spec fn widened(self, span: Span) -> Span {
        match self.src {
            Some(src) => Span {
                lo: (self.start_pos + blanks_start(
                    encode_utf8(src@),
                    span.lo - self.start_pos,
                )) as u32,
                hi: (self.start_pos + line_end(encode_utf8(src@), span.hi - self.start_pos)) as u32,
                ctxt: span.ctxt,
            },
            None => span,
        }
    }

    fn widen(&self, span: Span) -> (r: Option<Span>)
        ensures
            r == (if self.holds(span) {
                Some(self.widened(span))
            } else {
                None
            }),
    {
        let bytes: &[u8] = match &self.src {
            Some(src) => src.as_str().as_bytes(),
            None => {
                return None;
            },
        };
        let start: u32 = self.start_pos;
        if bytes.len() > (u32::MAX - start) as usize || start > span.lo || span.lo > span.hi
            || (span.hi - start) as usize > bytes.len() {
            return None;
        }
        let mut lo: u32 = span.lo - start;
        while lo > 0 && (bytes[lo as usize - 1] == 0x20 || bytes[lo as usize - 1] == 0x09)
            invariant
                start <= span.lo,
                lo <= span.lo - start <= bytes.len() <= u32::MAX - start,
                blanks_start(bytes@, span.lo - start) == blanks_start(bytes@, lo as int),
            decreases lo,
        {
            lo = lo - 1;
        }
        let mut hi: u32 = span.hi - start;
        while (hi as usize) < bytes.len() && bytes[hi as usize] != 0x0a
            invariant
                start <= span.hi,
                span.hi - start <= hi <= bytes.len() <= u32::MAX - start,
                line_end(bytes@, span.hi - start) == line_end(bytes@, hi as int),
            decreases bytes.len() - hi,
        {
            hi = hi + 1;
        }
        Some(Span { lo: start + lo, hi: start + hi, ctxt: span.ctxt })
    }
}

impl SourceMap {
    /// The span with its line's indentation before it and the rest of its last
    /// line behind it; the span itself where its text is not at hand.
    pub open spec fn whole_lines(self, span: Span) -> Span {
        match self.file_at(span.lo) {
            Some(i) => if self.files@[i].holds(span) {
                self.files@[i].widened(span)
            } else {
                span
            },
            None => span,
        }
    }

    /// The span with its line's indentation before it and the rest of its last
    /// line behind it; the span itself where its text is not at hand.
    pub fn extend_to_lines(&self, span: Span) -> (r: Span)
        ensures
            r == self.whole_lines(span),
    {
        match self.lookup_file(span.lo) {
            Some(i) => match self.files[i].widen(span) {
                Some(lines) => lines,
                None => span,
            },
            None => span,
        }
    }

    /// The file that holds `pos`.
    pub open spec fn file_at(self, pos: u32) -> Option<int> {
        file_upto(self.files@, pos, self.files@.len() as int)
    }

    /// The file that holds `pos`.
    pub fn lookup_file(&self, pos: u32) -> (r: Option<usize>)
        ensures
            match r {
                Some(i) => self.file_at(pos) == Some(i as int) && i < self.files.len()
                    && self.files@[i as int].start_pos <= pos,
                None => self.file_at(pos) is None,
            },
    {
        let mut n: usize = self.files.len();
        while n > 0
            invariant
                n <= self.files.len(),
                self.file_at(pos) == file_upto(self.files@, pos, n as int),
            decreases n,
        {
            if self.files[n - 1].start_pos <= pos {
                return Some(n - 1);
            }
            n = n - 1;
        }
        None
    }
}

proof fn lemma_blanks_start(bytes: Seq<u8>, i: int)
    requires
        0 <= i <= bytes.len(),
    ensures
        0 <= blanks_start(bytes, i) <= i,
        forall|k: int| blanks_start(bytes, i) <= k < i ==> #[trigger] bytes[k] == 0x20 || bytes[k]
            == 0x09,
        blanks_start(bytes, i) > 0 ==> bytes[blanks_start(bytes, i) - 1] != 0x20
            && bytes[blanks_start(bytes, i) - 1] != 0x09,
    decreases i,
{
    if i > 0 {
        lemma_blanks_start(bytes, i - 1);
    }
}

proof fn lemma_line_end(bytes: Seq<u8>, i: int)
    requires
        0 <= i <= bytes.len(),
    ensures
        i <= line_end(bytes, i) <= bytes.len(),
        forall|k: int| i <= k < line_end(bytes, i) ==> #[trigger] bytes[k] != 0x0a,
        line_end(bytes, i) < bytes.len() ==> bytes[line_end(bytes, i)] == 0x0a,
    decreases bytes.len() - i,
{
    if i < bytes.len() && bytes[i] != 0x0a {
        lemma_line_end(bytes, i + 1);
    }
}

/// A span that takes up lines is widened to them and no further: in front by the
/// blanks before it, behind to the end of its last line.
pub proof fn widened_spans_take_up_their_lines(file: SourceFile, span: Span)
    requires
        file.holds(span),
    ensures
        ({
            let wide = file.widened(span);
            let bytes = encode_utf8(file.src->0@);
            &&& file.start_pos <= wide.lo <= span.lo
            &&& span.hi <= wide.hi <= file.start_pos + bytes.len()
            &&& forall|k: int|
                wide.lo - file.start_pos <= k < span.lo - file.start_pos ==> #[trigger] bytes[k]
                    == 0x20 || bytes[k] == 0x09
            &&& forall|k: int|
                span.hi - file.start_pos <= k < wide.hi - file.start_pos ==> #[trigger] bytes[k]
                    != 0x0a
            &&& wide.hi < file.start_pos + bytes.len() ==> bytes[wide.hi - file.start_pos] == 0x0a
            &&& wide.ctxt == span.ctxt
        }),
{
    let bytes = encode_utf8(file.src->0@);
    lemma_blanks_start(bytes, span.lo - file.start_pos);
    lemma_line_end(bytes, span.hi - file.start_pos);
}

proof fn lemma_file_upto(files: Seq<SourceFile>, pos: u32, n: int)
    requires
        0 <= n <= files.len(),
    ensures
        match file_upto(files, pos, n) {
            Some(i) => 0 <= i < n && files[i].start_pos <= pos && forall|k: int|
                i < k < n ==> (#[trigger] files[k]).start_pos > pos,
            None => forall|k: int| 0 <= k < n ==> (#[trigger] files[k]).start_pos > pos,
        },
    decreases n,
{
    if n > 0 {
        lemma_file_upto(files, pos, n - 1);
    }
}

/// A position is in the last file that starts at or before it.
pub proof fn positions_have_their_file(map: SourceMap, pos: u32)
    ensures
        match map.file_at(pos) {
            Some(i) => 0 <= i < map.files@.len() && map.files@[i].start_pos <= pos && forall|k: int|
                i < k < map.files@.len() ==> (#[trigger] map.files@[k]).start_pos > pos,
            None => forall|k: int|
                0 <= k < map.files@.len() ==> (#[trigger] map.files@[k]).start_pos > pos,
        },
{
    lemma_file_upto(map.files@, pos, map.files@.len() as int);
}

} // verus!
