//! Rows in a fixed order, so that diagnostics come out the same on every run.

use crate::text;
use vstd::multiset::*;
use vstd::prelude::*;

verus! {

/// What something is ordered by: a position, then two texts. `index` says what it
/// stands for.
#[derive(Debug)]
pub struct Row {
    pub lo: u32,
    pub first: String,
    pub second: String,
    pub index: usize,
}

/// What a row says.
pub ghost struct RowView {
    pub lo: u32,
    pub first: Seq<char>,
    pub second: Seq<char>,
    pub index: usize,
}

impl View for Row {
    type V = RowView;

    open spec fn view(&self) -> RowView {
        RowView { lo: self.lo, first: self.first@, second: self.second@, index: self.index }
    }
}

pub open spec fn row_views(rows: Seq<Row>) -> Seq<RowView> {
    rows.map_values(|row: Row| row@)
}

impl RowView {
    /// The row does not come after the other.
    pub open spec fn le(self, other: RowView) -> bool {
        if self.lo != other.lo {
            self.lo < other.lo
        } else if self.first != other.first {
            text::text_le(self.first, other.first)
        } else {
            text::text_le(self.second, other.second)
        }
    }
}

impl Row {
    /// Whether the row does not come after the other.
    fn before(&self, other: &Row) -> (r: bool)
        ensures
            r == self@.le(other@),
    {
        if self.lo != other.lo {
            self.lo < other.lo
        } else if !text::str_eq(self.first.as_str(), other.first.as_str()) {
            text::str_le(self.first.as_str(), other.first.as_str())
        } else {
            text::str_le(self.second.as_str(), other.second.as_str())
        }
    }
}

/// The rows with one more, placed behind those that do not come after it.
pub open spec fn placed(rows: Seq<RowView>, row: RowView) -> Seq<RowView>
    decreases rows.len(),
{
    if rows.len() == 0 || rows.last().le(row) {
        rows.push(row)
    } else {
        placed(rows.drop_last(), row).push(rows.last())
    }
}

/// The rows in order.
pub open spec fn in_order(rows: Seq<RowView>) -> Seq<RowView>
    decreases rows.len(),
{
    if rows.len() == 0 {
        seq![]
    } else {
        placed(in_order(rows.drop_last()), rows.last())
    }
}

/// Each row does not come after the next.
pub open spec fn ascending(rows: Seq<RowView>) -> bool {
    forall|i: int, j: int| 0 <= i < j < rows.len() ==> (#[trigger] rows[i]).le(#[trigger] rows[j])
}

proof fn lemma_text_total(a: Seq<char>, b: Seq<char>)
    ensures
        text::text_le(a, b) || text::text_le(b, a),
    decreases a.len(),
{
    if a.len() > 0 && b.len() > 0 && a[0] == b[0] {
        lemma_text_total(a.skip(1), b.skip(1));
    }
}

proof fn lemma_text_both(a: Seq<char>, b: Seq<char>)
    requires
        text::text_le(a, b),
        text::text_le(b, a),
    ensures
        a == b,
    decreases a.len(),
{
    if a.len() > 0 && b.len() > 0 {
        lemma_text_both(a.skip(1), b.skip(1));
        assert(a =~= seq![a[0]] + a.skip(1));
        assert(b =~= seq![b[0]] + b.skip(1));
    } else {
        assert(a =~= b);
    }
}

proof fn lemma_text_chain(a: Seq<char>, b: Seq<char>, c: Seq<char>)
    requires
        text::text_le(a, b),
        text::text_le(b, c),
    ensures
        text::text_le(a, c),
    decreases a.len(),
{
    if a.len() > 0 && b.len() > 0 && c.len() > 0 && a[0] == b[0] && b[0] == c[0] {
        lemma_text_chain(a.skip(1), b.skip(1), c.skip(1));
    }
}

proof fn lemma_chain(a: RowView, b: RowView, c: RowView)
    requires
        a.le(b),
        b.le(c),
    ensures
        a.le(c),
{
    if a.lo == b.lo && b.lo == c.lo {
        lemma_text_total(a.first, a.first);
        if a.first != b.first && b.first != c.first {
            lemma_text_chain(a.first, b.first, c.first);
            if a.first == c.first {
                lemma_text_both(a.first, b.first);
            }
        } else if a.first == b.first && b.first == c.first {
            lemma_text_chain(a.second, b.second, c.second);
        }
    }
}

proof fn lemma_total(a: RowView, b: RowView)
    ensures
        a.le(b) || b.le(a),
{
    lemma_text_total(a.first, b.first);
    lemma_text_total(a.second, b.second);
}

proof fn lemma_placed(rows: Seq<RowView>, row: RowView)
    requires
        ascending(rows),
    ensures
        ascending(placed(rows, row)),
        placed(rows, row).to_multiset() == rows.to_multiset().insert(row),
        forall|i: int|
            0 <= i < placed(rows, row).len() ==> (#[trigger] placed(rows, row)[i]) == row
                || rows.contains(placed(rows, row)[i]),
    decreases rows.len(),
{
    broadcast use vstd::seq_lib::group_to_multiset_ensures;

    let out = placed(rows, row);
    if rows.len() == 0 || rows.last().le(row) {
        assert forall|i: int, j: int| 0 <= i < j < out.len() implies (#[trigger] out[i]).le(
            #[trigger] out[j],
        ) by {
            if j == rows.len() && i < rows.len() - 1 {
                assert(rows[i].le(rows.last()));
                lemma_chain(rows[i], rows.last(), row);
            }
        }
        assert forall|i: int| 0 <= i < out.len() implies (#[trigger] out[i]) == row
            || rows.contains(out[i]) by {
            if i < rows.len() {
                assert(rows[i] == out[i]);
            }
        }
    } else {
        let init = rows.drop_last();
        let last = rows.last();
        let mid = placed(init, row);
        assert(ascending(init));
        lemma_placed(init, row);
        lemma_total(row, last);
        assert(rows =~= init.push(last));
        assert forall|i: int, j: int| 0 <= i < j < out.len() implies (#[trigger] out[i]).le(
            #[trigger] out[j],
        ) by {
            if j == mid.len() {
                assert(mid[i] == out[i]);
                if mid[i] != row {
                    let k = choose|k: int| 0 <= k < init.len() && init[k] == mid[i];
                    assert(rows[k].le(rows[rows.len() - 1]));
                }
            } else {
                assert(mid[i].le(mid[j]));
            }
        }
        assert forall|i: int| 0 <= i < out.len() implies (#[trigger] out[i]) == row
            || rows.contains(out[i]) by {
            if i < mid.len() {
                assert(out[i] == mid[i]);
                if mid[i] != row {
                    let k = choose|k: int| 0 <= k < init.len() && init[k] == mid[i];
                    assert(rows[k] == out[i]);
                }
            } else {
                assert(rows[rows.len() - 1] == out[i]);
            }
        }
    }
}

/// Ordering rows puts them in ascending order, loses none and adds none.
pub proof fn ordering_sorts(rows: Seq<RowView>)
    ensures
        ascending(in_order(rows)),
        in_order(rows).to_multiset() == rows.to_multiset(),
    decreases rows.len(),
{
    broadcast use vstd::seq_lib::group_to_multiset_ensures;

    if rows.len() > 0 {
        ordering_sorts(rows.drop_last());
        lemma_placed(in_order(rows.drop_last()), rows.last());
        assert(rows =~= rows.drop_last().push(rows.last()));
    } else {
        assert(in_order(rows) =~= rows);
    }
}

proof fn lemma_placed_at(rows: Seq<RowView>, row: RowView, k: int)
    requires
        0 <= k <= rows.len(),
        k == 0 || rows[k - 1].le(row),
        forall|j: int| k <= j < rows.len() ==> !(#[trigger] rows[j]).le(row),
    ensures
        placed(rows, row) == rows.insert(k, row),
    decreases rows.len(),
{
    if k == rows.len() {
        assert(rows.insert(k, row) =~= rows.push(row));
    } else {
        assert(!rows[rows.len() - 1].le(row));
        lemma_placed_at(rows.drop_last(), row, k);
        assert(rows.insert(k, row) =~= rows.drop_last().insert(k, row).push(rows.last()));
    }
}

fn place(rows: &mut Vec<Row>, row: Row)
    ensures
        row_views(final(rows)@) == placed(row_views(old(rows)@), row@),
{
    let ghost before = row_views(rows@);
    let mut k: usize = rows.len();
    while k > 0 && !rows[k - 1].before(&row)
        invariant
            k <= rows.len(),
            before == row_views(rows@),
            forall|j: int| k <= j < before.len() ==> !(#[trigger] before[j]).le(row@),
        decreases k,
    {
        assert(before[k - 1] == rows@[k - 1]@);
        k = k - 1;
    }
    proof {
        if k > 0 {
            assert(before[k - 1] == rows@[k - 1]@);
        }
        lemma_placed_at(before, row@, k as int);
    }
    let ghost added = row;
    rows.insert(k, row);
    proof {
        assert(row_views(rows@) =~= before.insert(k as int, added@));
    }
}

/// Puts rows in ascending order, equal ones in the order in which they come.
pub fn order_rows(rows: Vec<Row>) -> (r: Vec<Row>)
    ensures
        row_views(r@) == in_order(row_views(rows@)),
{
    let mut rest: Vec<Row> = rows;
    order_prefix(&mut rest)
}

fn order_prefix(rest: &mut Vec<Row>) -> (r: Vec<Row>)
    ensures
        row_views(r@) == in_order(row_views(old(rest)@)),
    decreases old(rest)@.len(),
{
    let ghost all = row_views(rest@);
    match rest.pop() {
        Some(row) => {
            proof {
                assert(row_views(rest@) =~= all.drop_last());
                assert(all.last() == row@);
            }
            let mut out: Vec<Row> = order_prefix(rest);
            place(&mut out, row);
            out
        },
        None => {
            let out: Vec<Row> = Vec::new();
            proof {
                assert(all =~= seq![]);
                assert(row_views(out@) =~= seq![]);
            }
            out
        },
    }
}

/// Rows come in the order of their positions, those of one position in the order
/// of their first texts, and those of one first text in the order of their second.
pub proof fn rows_come_by_position(rows: Seq<RowView>, i: int, j: int)
    requires
        0 <= i < j < in_order(rows).len(),
    ensures
        in_order(rows)[i].lo <= in_order(rows)[j].lo,
        in_order(rows)[i].lo == in_order(rows)[j].lo ==> text::text_le(
            in_order(rows)[i].first,
            in_order(rows)[j].first,
        ),
        in_order(rows)[i].lo == in_order(rows)[j].lo && in_order(rows)[i].first == in_order(
            rows,
        )[j].first ==> text::text_le(in_order(rows)[i].second, in_order(rows)[j].second),
{
    ordering_sorts(rows);
    lemma_text_total(in_order(rows)[i].first, in_order(rows)[j].first);
}

} // verus!
