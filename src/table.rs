//! The finished, immutable table and its rendering.
use vstd::prelude::*;

use crate::alignment::Alignment;
use crate::render::{format_row, line_of};
use crate::row::{Row, marker_slots, text_slots, width_slots};

verus! {

/// A finished table: a header, the column alignments, the content rows in
/// the order they were added, and the width of every column.
#[derive(Debug, Clone)]
pub struct Table {
    header: Row<String, String>,
    alignments: Row<Alignment, Alignment>,
    content: Vec<Row<String, String>>,
    widths: Row<usize, usize>,
}

/// What a table holds, slot by slot (slot 0 is the label column).
pub ghost struct TableModel {
    pub columns: nat,
    pub header: Seq<Seq<char>>,
    pub alignments: Seq<Alignment>,
    pub content: Seq<Seq<Seq<char>>>,
    pub widths: Seq<int>,
}

/// Each line followed by a newline.
pub open spec fn lines_text(lines: Seq<Seq<char>>) -> Seq<char>
    decreases lines.len(),
{
    if lines.len() == 0 {
        Seq::empty()
    } else {
        lines_text(lines.drop_last()) + lines.last() + seq!['\n']
    }
}

impl TableModel {
    /// Every row has one slot per column and the label.
    pub open spec fn wf(self) -> bool {
        &&& self.header.len() == self.columns + 1
        &&& self.alignments.len() == self.columns + 1
        &&& self.widths.len() == self.columns + 1
        &&& forall|k: int| 0 <= k < self.content.len() ==> #[trigger] self.content[k].len() == self.columns + 1
    }

    /// The line of a row of this table.
    pub open spec fn line(self, text: Seq<Seq<char>>) -> Seq<char> {
        line_of(text, self.widths, self.alignments)
    }

    /// The header line, the marker line, then one line per content row.
    pub open spec fn lines(self) -> Seq<Seq<char>> {
        seq![self.line(self.header), self.line(marker_slots(self.alignments))]
            + self.content.map_values(|r: Seq<Seq<char>>| self.line(r))
    }

    /// The rendered table: every line followed by a newline.
    pub open spec fn text(self) -> Seq<char> {
        lines_text(self.lines())
    }
}

impl View for Table {
    type V = TableModel;

    closed spec fn view(&self) -> TableModel {
        TableModel {
            columns: self.header.cells@.len(),
            header: text_slots(&self.header),
            alignments: self.alignments.slots(),
            content: self.content@.map_values(|r: Row<String, String>| text_slots(&r)),
            widths: width_slots(&self.widths),
        }
    }
}

impl Table {
    /// The rows agree on the number of columns.
    pub closed spec fn wf(&self) -> bool {
        let n = self.header.cells@.len();
        &&& self.alignments.cells@.len() == n
        &&& self.widths.cells@.len() == n
        &&& forall|k: int| 0 <= k < self.content@.len() ==> #[trigger] self.content@[k].cells@.len() == n
    }

    pub(crate) fn from_parts(
        header: Row<String, String>,
        alignments: Row<Alignment, Alignment>,
        content: Vec<Row<String, String>>,
        widths: Row<usize, usize>,
    ) -> (t: Table)
        requires
            alignments.cells@.len() == header.cells@.len(),
            widths.cells@.len() == header.cells@.len(),
            forall|k: int| 0 <= k < content@.len() ==> #[trigger] content@[k].cells@.len() == header.cells@.len(),
        ensures
            t.wf(),
            t@ == (TableModel {
                columns: header.cells@.len(),
                header: text_slots(&header),
                alignments: alignments.slots(),
                content: content@.map_values(|r: Row<String, String>| text_slots(&r)),
                widths: width_slots(&widths),
            }),
    {
        Table { header, alignments, content, widths }
    }

    proof fn lemma_model_wf(&self)
        requires
            self.wf(),
        ensures
            self@.wf(),
    {
        assert forall|k: int| 0 <= k < self@.content.len() implies #[trigger] self@.content[k].len()
            == self@.columns + 1 by {
            assert(self@.content[k] == text_slots(&self.content@[k]));
        }
    }

    /// The width of every column.
    pub fn widths(&self) -> (r: &Row<usize, usize>)
        ensures
            width_slots(r) == self@.widths,
    {
        &self.widths
    }

    /// The table as text: the header line, the line of alignment markers,
    /// then one line per content row, each followed by a newline.
    pub fn render(&self) -> (r: String)
        requires
            self.wf(),
        ensures
            r@ == self@.text(),
    {
        proof {
            self.lemma_model_wf();
        }
        let ghost m = self@;
        let ghost lines = m.lines();
        let mut out = String::new();
        proof {
            reveal_strlit("\n");
        }
        assert("\n"@ =~= seq!['\n']);
        let head = format_row(&self.header, &self.widths, &self.alignments);
        out.append(head.as_str());
        out.append("\n");
        let markers = self.alignments.markers();
        let mark = format_row(&markers, &self.widths, &self.alignments);
        out.append(mark.as_str());
        out.append("\n");
        assert(head@ == lines[0]);
        assert(mark@ == lines[1]);
        assert(lines.take(2).drop_last() =~= lines.take(1));
        assert(lines.take(1).drop_last() =~= Seq::<Seq<char>>::empty());
        assert(lines_text(Seq::<Seq<char>>::empty()) == Seq::<char>::empty());
        assert(lines.take(1).last() == lines[0]);
        assert(lines_text(lines.take(1)) =~= lines[0] + seq!['\n']);
        assert(out@ =~= lines_text(lines.take(2)));
        let n = self.content.len();
        let mut i: usize = 0;
        while i < n
            invariant
                self.wf(),
                m == self@,
                lines == m.lines(),
                lines.len() == n + 2,
                "\n"@ == seq!['\n'],
                n == self.content@.len(),
                i <= n,
                out@ == lines_text(lines.take(i + 2)),
            decreases n - i,
        {
            let line = format_row(&self.content[i], &self.widths, &self.alignments);
            out.append(line.as_str());
            out.append("\n");
            assert(lines.take(i + 3).drop_last() =~= lines.take(i + 2));
            assert(line@ == lines[i + 2]);
            assert(lines.take(i + 3).last() == lines[i + 2]);
            i = i + 1;
        }
        assert(lines.take(n + 2) =~= lines);
        out
    }
}

} // verus!
