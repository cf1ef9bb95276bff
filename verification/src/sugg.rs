//! Source text for suggestions, with how far it can be trusted.

use crate::diagnostics::Applicability;
use crate::hir::{Hir, Span};
use crate::lexer;
use crate::text;
use vstd::prelude::*;
use vstd::utf8::*;

verus! {

impl Hir {
    /// The source of a node.
    pub open spec fn source(self, n: usize) -> Option<Seq<char>> {
        text::text_opt(self.node(n).snippet)
    }

    /// The source of a node, or `..` where it cannot be read.
    pub open spec fn source_or_dots(self, n: usize) -> Seq<char> {
        match self.node(n).snippet {
            Some(source) => source@,
            None => ".."@,
        }
    }

    /// What is left of the applicability once the node's source is used.
    pub open spec fn after_source(self, n: usize, applicability: Applicability) -> Applicability {
        applicability.weakened(self.node(n).snippet is None, self.node(n).span.expanded())
    }

    /// The node's source for a suggestion, `..` where it cannot be read, and
    /// what is left of the applicability.
    pub fn snippet_with_applicability(&self, n: usize, applicability: Applicability) -> (r: (
        String,
        Applicability,
    ))
        requires
            self.has(n),
        ensures
            r.0@ == self.source_or_dots(n),
            r.1 == self.after_source(n, applicability),
    {
        let expanded: bool = self.nodes[n].span.from_expansion();
        match &self.nodes[n].snippet {
            Some(source) => (source.clone(), applicability.weaken(false, expanded)),
            None => ("..".to_owned(), applicability.weaken(true, expanded)),
        }
    }

    /// The node's source as an operand, or `..`.
    pub open spec fn operand_or_dots(self, n: usize) -> Seq<char> {
        match self.node(n).sugg {
            Some(sugg) => sugg.operand@,
            None => ".."@,
        }
    }

    /// The node's source as a suggestion writes it, or `..`.
    pub open spec fn plain_or_dots(self, n: usize) -> Seq<char> {
        match self.node(n).sugg {
            Some(sugg) => sugg.plain@,
            None => ".."@,
        }
    }

    /// The node's source spelled to hand its value over: a place, or what is
    /// reached through a dereference, is cloned, and a temporary stays as written.
    pub open spec fn owned_or_dots(self, n: usize) -> Seq<char> {
        if self.node(n).place || self.node(n).derefs > 0 {
            self.operand_or_dots(n) + ".clone()"@
        } else {
            self.plain_or_dots(n)
        }
    }

    /// What is left of the applicability once the node is spelled in a
    /// suggestion.
    pub open spec fn after_sugg(self, n: usize, applicability: Applicability) -> Applicability {
        applicability.weakened(self.node(n).sugg is None, self.node(n).span.expanded())
    }

    /// What is left of the applicability once the node is spelled in a
    /// suggestion.
    pub fn sugg_applicability(&self, n: usize, applicability: Applicability) -> (r: Applicability)
        requires
            self.has(n),
        ensures
            r == self.after_sugg(n, applicability),
    {
        applicability.weaken(self.nodes[n].sugg.is_none(), self.nodes[n].span.from_expansion())
    }

    /// The node's source as an operand, in parentheses where it needs them.
    pub fn operand_text(&self, n: usize) -> (r: String)
        requires
            self.has(n),
        ensures
            r@ == self.operand_or_dots(n),
    {
        match &self.nodes[n].sugg {
            Some(sugg) => sugg.operand.clone(),
            None => "..".to_owned(),
        }
    }

    /// The node's source as a suggestion writes it.
    pub fn plain_text(&self, n: usize) -> (r: String)
        requires
            self.has(n),
        ensures
            r@ == self.plain_or_dots(n),
    {
        match &self.nodes[n].sugg {
            Some(sugg) => sugg.plain.clone(),
            None => "..".to_owned(),
        }
    }

    /// The node's source spelled to hand its value over: a place, or what is
    /// reached through a dereference, is cloned, and a temporary stays as written.
    pub fn owned_spelling(&self, n: usize) -> (r: String)
        requires
            self.has(n),
        ensures
            r@ == self.owned_or_dots(n),
    {
        if self.nodes[n].place || self.nodes[n].derefs > 0 {
            text::cat(self.operand_text(n).as_str(), ".clone()")
        } else {
            self.plain_text(n)
        }
    }

    /// The source of a node between the byte positions `lo` and `hi`.
    pub open spec fn source_between(self, n: usize, lo: u32, hi: u32) -> Option<Seq<char>> {
        let span = self.node(n).span;
        match self.node(n).snippet {
            Some(source) => if span.lo <= lo && span.lo <= hi && lexer::sliceable(
                source@,
                lo - span.lo,
                hi - span.lo,
            ) {
                Some(lexer::slice(source@, lo - span.lo, hi - span.lo))
            } else {
                None
            },
            None => None,
        }
    }

    /// The source of a node between the byte positions `lo` and `hi`.
    pub fn snippet_between(&self, n: usize, lo: u32, hi: u32) -> (r: Option<String>)
        requires
            self.has(n),
        ensures
            text::text_opt(r) == self.source_between(n, lo, hi),
            r matches Some(part) ==> self.node(n).snippet matches Some(source) && encode_utf8(
                part@,
            ).len() <= encode_utf8(source@).len(),
    {
        let span: Span = self.nodes[n].span;
        match &self.nodes[n].snippet {
            Some(source) => {
                if span.lo > lo || span.lo > hi {
                    return None;
                }
                match lexer::str_get(
                    source.as_str(),
                    (lo - span.lo) as usize,
                    (hi - span.lo) as usize,
                ) {
                    Some(part) => Some(part.to_owned()),
                    None => None,
                }
            },
            None => None,
        }
    }

    /// The source of a node from the byte position `lo` on.
    pub open spec fn source_from(self, n: usize, lo: u32) -> Option<Seq<char>> {
        let span = self.node(n).span;
        match self.node(n).snippet {
            Some(source) => {
                let end = encode_utf8(source@).len() as int;
                if span.lo <= lo && lexer::sliceable(source@, lo - span.lo, end) {
                    Some(lexer::slice(source@, lo - span.lo, end))
                } else {
                    None
                }
            },
            None => None,
        }
    }

    /// The source of a node from the byte position `lo` on.
    pub fn snippet_from(&self, n: usize, lo: u32) -> (r: Option<String>)
        requires
            self.has(n),
        ensures
            text::text_opt(r) == self.source_from(n, lo),
            r matches Some(part) ==> self.node(n).snippet matches Some(source) && encode_utf8(
                part@,
            ).len() <= encode_utf8(source@).len(),
    {
        let span: Span = self.nodes[n].span;
        match &self.nodes[n].snippet {
            Some(source) => {
                if span.lo > lo {
                    return None;
                }
                let end: usize = source.as_str().as_bytes().len();
                match lexer::str_get(source.as_str(), (lo - span.lo) as usize, end) {
                    Some(part) => Some(part.to_owned()),
                    None => None,
                }
            },
            None => None,
        }
    }

    /// The source of a node, where it can be read.
    pub fn snippet_opt(&self, n: usize) -> (r: Option<String>)
        requires
            self.has(n),
        ensures
            text::text_opt(r) == self.source(n),
    {
        match &self.nodes[n].snippet {
            Some(source) => Some(source.clone()),
            None => None,
        }
    }
}

/// The source of a node from its own start on is all of its source; a value that
/// is read out of a place is taken as a clone, and any other as it is.
pub proof fn sources_are_kept(hir: Hir, n: usize)
    ensures
        hir.node(n).snippet is Some ==> hir.source_from(n, hir.node(n).span.lo) == hir.source(n),
        hir.node(n).sugg matches Some(sugg) ==> hir.owned_or_dots(n) == (if hir.node(n).place
            || hir.node(n).derefs > 0 {
            sugg.operand@ + ".clone()"@
        } else {
            sugg.plain@
        }),
{
    if let Some(source) = hir.node(n).snippet {
        lexer::slices_are_what_stands_there(seq![], source@, seq![]);
        assert(seq![] + source@ + seq![] =~= source@);
    }
}

/// Two neighbouring pieces of a node's source make up the piece over both.
pub proof fn neighbouring_pieces_join(hir: Hir, n: usize, lo: u32, mid: u32, hi: u32)
    requires
        lo <= mid <= hi,
        hir.source_between(n, lo, mid) is Some,
        hir.source_between(n, mid, hi) is Some,
    ensures
        hir.source_between(n, lo, hi) == Some(
            hir.source_between(n, lo, mid)->0 + hir.source_between(n, mid, hi)->0,
        ),
{
    let source = hir.node(n).snippet->0@;
    let start = hir.node(n).span.lo;
    lexer::adjacent_slices_join(source, lo - start, mid - start, hi - start);
}

} // verus!
