//! The builder that assembles a table and keeps the running column widths.
use vstd::prelude::*;

use crate::alignment::{Alignment, default_alignment_slots};
use crate::row::{Row, lengths, marker_slots, max_each, text_slots, width_slots};
use crate::table::{Table, TableModel};

verus! {

/// The longest text in slot `j` over all rows, or 0 when there are none.
pub open spec fn max_len(rows: Seq<Seq<Seq<char>>>, j: int) -> int
    decreases rows.len(),
{
    if rows.len() == 0 {
        0
    } else {
        let rest = max_len(rows.drop_last(), j);
        let last = rows.last()[j].len() as int;
        if rest >= last {
            rest
        } else {
            last
        }
    }
}

/// The width of every slot that rows of `columns` data cells need.
pub open spec fn column_maxima(rows: Seq<Seq<Seq<char>>>, columns: nat) -> Seq<int> {
    Seq::new(columns + 1, |j: int| max_len(rows, j))
}

/// Assembles a [`Table`] with a fixed number of data columns.
#[derive(Debug, Clone)]
pub struct Builder {
    columns: usize,
    header: Option<Row<String, String>>,
    alignments: Option<Row<Alignment, Alignment>>,
    measured_alignments: bool,
    content: Vec<Row<String, String>>,
    widths: Row<usize, usize>,
}

/// What a builder has collected so far, slot by slot.
pub ghost struct BuilderModel {
    pub columns: nat,
    pub header: Option<Seq<Seq<char>>>,
    pub alignments: Option<Seq<Alignment>>,
    /// The alignments were given explicitly, so their markers count toward
    /// the widths; default alignments do not.
    pub measured_alignments: bool,
    pub content: Seq<Seq<Seq<char>>>,
}

impl BuilderModel {
    /// The rows whose texts the widths must hold: the header, explicitly
    /// given alignment markers, and every content row.
    pub open spec fn measured(self) -> Seq<Seq<Seq<char>>> {
        let head = match self.header {
            Some(h) => seq![h],
            None => Seq::empty(),
        };
        let marks = match self.alignments {
            Some(a) => if self.measured_alignments {
                seq![marker_slots(a)]
            } else {
                Seq::empty()
            },
            None => Seq::empty(),
        };
        head + marks + self.content
    }

    /// The width of every slot: the longest text measured there.
    pub open spec fn widths(self) -> Seq<int> {
        column_maxima(self.measured(), self.columns)
    }

    /// The table that finishing yields; without alignments, the default ones.
    pub open spec fn finished(self) -> TableModel {
        TableModel {
            columns: self.columns,
            header: self.header.unwrap(),
            alignments: match self.alignments {
                Some(a) => a,
                None => default_alignment_slots(self.columns),
            },
            content: self.content,
            widths: self.widths(),
        }
    }
}

impl View for Builder {
    type V = BuilderModel;

    closed spec fn view(&self) -> BuilderModel {
        BuilderModel {
            columns: self.columns as nat,
            header: match self.header {
                Some(h) => Some(text_slots(&h)),
                None => None,
            },
            alignments: match self.alignments {
                Some(a) => Some(a.slots()),
                None => None,
            },
            measured_alignments: self.measured_alignments,
            content: self.content@.map_values(|r: Row<String, String>| text_slots(&r)),
        }
    }
}

/// Slot `j` of the maxima over two runs of rows together is the larger of
/// the two runs' maxima.
proof fn lemma_max_len_concat(a: Seq<Seq<Seq<char>>>, b: Seq<Seq<Seq<char>>>, j: int)
    ensures
        max_len(a + b, j) == if max_len(a, j) >= max_len(b, j) {
            max_len(a, j)
        } else {
            max_len(b, j)
        },
    decreases b.len(),
{
    lemma_max_len_nonneg(a, j);
    if b.len() == 0 {
        assert(a + b =~= a);
    } else {
        lemma_max_len_concat(a, b.drop_last(), j);
        assert((a + b).drop_last() =~= a + b.drop_last());
        assert((a + b).last() == b.last());
    }
}

proof fn lemma_max_len_nonneg(rows: Seq<Seq<Seq<char>>>, j: int)
    ensures
        max_len(rows, j) >= 0,
    decreases rows.len(),
{
    if rows.len() > 0 {
        lemma_max_len_nonneg(rows.drop_last(), j);
    }
}

/// Slot `j` of every row is no longer than the maximum over the rows.
proof fn lemma_max_len_bound(rows: Seq<Seq<Seq<char>>>, j: int, k: int)
    requires
        0 <= k < rows.len(),
    ensures
        rows[k][j].len() <= max_len(rows, j),
    decreases rows.len(),
{
    if k < rows.len() - 1 {
        lemma_max_len_bound(rows.drop_last(), j, k);
    }
}

/// Measuring one more row, wherever it stands among the others, raises each
/// width to that row's text length where it is longer.
proof fn lemma_measure_one_more(
    a: Seq<Seq<Seq<char>>>,
    r: Seq<Seq<char>>,
    c: Seq<Seq<Seq<char>>>,
    columns: nat,
)
    requires
        r.len() == columns + 1,
    ensures
        column_maxima(a + seq![r] + c, columns) == max_each(
            column_maxima(a + c, columns),
            lengths(r),
        ),
{
    let one = seq![r];
    assert forall|j: int| 0 <= j < columns + 1 implies max_len(a + one + c, j) == max_each(
        column_maxima(a + c, columns),
        lengths(r),
    )[j] by {
        lemma_max_len_concat(a + one, c, j);
        lemma_max_len_concat(a, one, j);
        lemma_max_len_concat(a, c, j);
        assert(one.drop_last() =~= Seq::<Seq<Seq<char>>>::empty());
        assert(one.last() == r);
        assert(max_len(one.drop_last(), j) == 0);
        assert(max_len(one, j) == r[j].len());
        assert(lengths(r)[j] == r[j].len());
    }
    assert(column_maxima(a + one + c, columns) =~= max_each(
        column_maxima(a + c, columns),
        lengths(r),
    ));
}

/// Every width is at least the length of every text measured in its slot.
pub proof fn lemma_widths_cover_measured(m: BuilderModel)
    ensures
        forall|k: int, j: int|
            0 <= k < m.measured().len() && 0 <= j <= m.columns ==> #[trigger] m.measured()[k][j].len()
                <= #[trigger] m.widths()[j],
{
    assert forall|k: int, j: int| 0 <= k < m.measured().len() && 0 <= j <= m.columns implies #[trigger] m.measured()[k][j].len()
        <= #[trigger] m.widths()[j] by {
        lemma_max_len_bound(m.measured(), j, k);
    }
}

/// Measuring more rows never narrows a column: each width over `rows`
/// followed by `more` is at least the width over `rows` alone.
pub proof fn lemma_widths_never_shrink(
    rows: Seq<Seq<Seq<char>>>,
    more: Seq<Seq<Seq<char>>>,
    columns: nat,
)
    ensures
        forall|j: int|
            0 <= j <= columns ==> #[trigger] column_maxima(rows + more, columns)[j] >= column_maxima(
                rows,
                columns,
            )[j],
{
    assert forall|j: int| 0 <= j <= columns implies #[trigger] column_maxima(rows + more, columns)[j]
        >= column_maxima(rows, columns)[j] by {
        lemma_max_len_concat(rows, more, j);
    }
}

impl Builder {
    /// The rows agree on the number of columns, and the widths are the
    /// longest texts measured so far.
    pub closed spec fn wf(&self) -> bool {
        let n = self.columns as nat;
        &&& self.widths.cells@.len() == n
        &&& (self.header matches Some(h) ==> h.cells@.len() == n)
        &&& (self.alignments matches Some(a) ==> a.cells@.len() == n)
        &&& (self.alignments is None ==> !self.measured_alignments)
        &&& forall|k: int| 0 <= k < self.content@.len() ==> #[trigger] self.content@[k].cells@.len() == n
        &&& width_slots(&self.widths) == self@.widths()
    }

    /// An empty builder for rows of `columns` data cells.
    pub fn new(columns: usize) -> (b: Builder)
        ensures
            b.wf(),
            b@ == (BuilderModel {
                columns: columns as nat,
                header: None,
                alignments: None,
                measured_alignments: false,
                content: Seq::empty(),
            }),
    {
        let b = Builder {
            columns,
            header: None,
            alignments: None,
            measured_alignments: false,
            content: Vec::new(),
            widths: Row::zeros(columns),
        };
        assert(b@.measured() =~= Seq::<Seq<Seq<char>>>::empty());
        assert(b@.widths() =~= width_slots(&b.widths));
        b
    }

    fn update_widths(&mut self, widths: Row<usize, usize>)
        requires
            widths.cells@.len() == old(self).widths.cells@.len(),
        ensures
            width_slots(&final(self).widths) == max_each(width_slots(&old(self).widths), width_slots(&widths)),
            final(self).widths.cells@.len() == old(self).widths.cells@.len(),
            final(self).columns == old(self).columns,
            final(self).header == old(self).header,
            final(self).alignments == old(self).alignments,
            final(self).measured_alignments == old(self).measured_alignments,
            final(self).content == old(self).content,
    {
        self.widths = Row::max(&self.widths, &widths);
    }

    /// Sets the header row and widens the columns to hold it.
    pub fn header(&mut self, header: Row<String, String>)
        requires
            old(self).wf(),
            old(self)@.header is None,
            header.cells@.len() == old(self)@.columns,
        ensures
            final(self).wf(),
            final(self)@ == (BuilderModel { header: Some(text_slots(&header)), ..old(self)@ }),
    {
        let ghost before = self@;
        let ghost h = text_slots(&header);
        let w = header.widths();
        self.update_widths(w);
        self.header = Some(header);
        proof {
            let after = self@;
            assert(after.content == before.content);
            assert(after.measured() =~= Seq::empty() + seq![h] + before.measured());
            lemma_measure_one_more(Seq::empty(), h, before.measured(), before.columns);
        }
    }

    /// Sets the alignments and widens the columns to hold their markers.
    pub fn alignments(&mut self, alignments: Row<Alignment, Alignment>)
        requires
            old(self).wf(),
            old(self)@.alignments is None,
            alignments.cells@.len() == old(self)@.columns,
        ensures
            final(self).wf(),
            final(self)@ == (BuilderModel {
                alignments: Some(alignments.slots()),
                measured_alignments: true,
                ..old(self)@
            }),
    {
        let ghost before = self@;
        let markers = alignments.markers();
        let ghost m = text_slots(&markers);
        let w = markers.widths();
        self.update_widths(w);
        self.alignments = Some(alignments);
        self.measured_alignments = true;
        proof {
            let after = self@;
            let head = match before.header {
                Some(h) => seq![h],
                None => Seq::<Seq<Seq<char>>>::empty(),
            };
            assert(after.content == before.content);
            assert(before.measured() =~= head + before.content);
            assert(after.measured() =~= head + seq![m] + before.content);
            lemma_measure_one_more(head, m, before.content, before.columns);
        }
    }

    /// Uses the default alignments: `Left` for the label column, `Right` for
    /// every data column. Their markers do not count toward the widths.
    pub fn default_alignments(&mut self)
        requires
            old(self).wf(),
            old(self)@.alignments is None,
        ensures
            final(self).wf(),
            final(self)@ == (BuilderModel {
                alignments: Some(default_alignment_slots(old(self)@.columns)),
                ..old(self)@
            }),
            !final(self)@.measured_alignments,
            final(self)@.widths() == old(self)@.widths(),
    {
        let ghost before = self@;
        self.alignments = Some(Alignment::default_row(self.columns));
        proof {
            assert(self@.measured() =~= before.measured());
        }
    }

    /// Appends a content row and widens the columns to hold it.
    pub fn row(&mut self, row: Row<String, String>)
        requires
            old(self).wf(),
            row.cells@.len() == old(self)@.columns,
        ensures
            final(self).wf(),
            final(self)@ == (BuilderModel {
                content: old(self)@.content.push(text_slots(&row)),
                ..old(self)@
            }),
    {
        let ghost before = self@;
        let ghost r = text_slots(&row);
        let w = row.widths();
        self.update_widths(w);
        self.content.push(row);
        proof {
            let after = self@;
            assert(after.content =~= before.content.push(r));
            assert(after.measured() =~= before.measured() + seq![r] + Seq::empty());
            assert(before.measured() + Seq::empty() =~= before.measured());
            lemma_measure_one_more(before.measured(), r, Seq::empty(), before.columns);
        }
    }

    /// The finished table; without alignments set, the default ones are used.
    pub fn finish(self) -> (t: Table)
        requires
            self.wf(),
            self@.header is Some,
        ensures
            t.wf(),
            t@ == self@.finished(),
    {
        let columns = self.columns;
        let header = match self.header {
            Some(h) => h,
            None => {
                proof {
                    assert(false);
                }
                Row::new(String::new(), Vec::new())
            },
        };
        let alignments = match self.alignments {
            Some(a) => a,
            None => Alignment::default_row(columns),
        };
        let t = Table::from_parts(header, alignments, self.content, self.widths);
        proof {
            assert(t@ =~= self@.finished());
        }
        t
    }
}

} // verus!
