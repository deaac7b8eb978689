//! Rows: a label cell followed by a fixed number of data cells.
use vstd::prelude::*;

use crate::alignment::{Alignment, marker_of};

verus! {

/// A label cell and the data cells after it.
///
/// Slot 0 is the label; slots `1..=n` are the `n` data cells in order.
#[derive(Debug, Clone)]
pub struct Row<L, C> {
    pub label: L,
    pub cells: Vec<C>,
}

/// The text of every slot of a text row.
pub open spec fn text_slots(r: &Row<String, String>) -> Seq<Seq<char>> {
    seq![r.label@] + r.cells@.map_values(|c: String| c@)
}

/// Every slot of a row of widths, as integers.
pub open spec fn width_slots(r: &Row<usize, usize>) -> Seq<int> {
    r.slots().map_values(|w: usize| w as int)
}

/// The length of each text in a row of texts.
pub open spec fn lengths(text: Seq<Seq<char>>) -> Seq<int> {
    text.map_values(|s: Seq<char>| s.len() as int)
}

/// The slot-wise maximum of two rows of widths.
pub open spec fn max_each(a: Seq<int>, b: Seq<int>) -> Seq<int> {
    Seq::new(a.len(), |i: int| if a[i] >= b[i] { a[i] } else { b[i] })
}

impl<L, C> Row<L, C> {
    pub fn new(label: L, cells: Vec<C>) -> (r: Self)
        ensures
            r.label == label,
            r.cells == cells,
    {
        Row { label, cells }
    }

    /// The number of data cells.
    pub fn columns(&self) -> (r: usize)
        ensures
            r == self.cells@.len(),
    {
        self.cells.len()
    }

    pub fn label(&self) -> (r: &L)
        ensures
            *r == self.label,
    {
        &self.label
    }

    /// The data cell at 0-based position `i`.
    pub fn cell(&self, i: usize) -> (r: &C)
        requires
            i < self.cells@.len(),
        ensures
            *r == self.cells@[i as int],
    {
        &self.cells[i]
    }
}

impl<T> Row<T, T> {
    /// The label followed by the data cells.
    pub open spec fn slots(&self) -> Seq<T> {
        seq![self.label] + self.cells@
    }

    /// Slot `i`: the label for 0, data cell `i - 1` otherwise.
    pub fn index(&self, i: usize) -> (r: &T)
        requires
            i <= self.cells@.len(),
        ensures
            *r == self.slots()[i as int],
    {
        if i == 0 {
            &self.label
        } else {
            &self.cells[i - 1]
        }
    }
}

impl Row<String, String> {
    /// The length in characters of every slot.
    pub fn widths(&self) -> (r: Row<usize, usize>)
        ensures
            r.cells@.len() == self.cells@.len(),
            width_slots(&r) == lengths(text_slots(self)),
    {
        let label = self.label.as_str().unicode_len();
        let mut cells: Vec<usize> = Vec::new();
        let n = self.cells.len();
        let mut i: usize = 0;
        while i < n
            invariant
                n == self.cells@.len(),
                i <= n,
                cells@.len() == i,
                forall|k: int| 0 <= k < i ==> cells@[k] == self.cells@[k]@.len(),
            decreases n - i,
        {
            cells.push(self.cells[i].as_str().unicode_len());
            i = i + 1;
        }
        let r = Row { label, cells };
        assert(width_slots(&r) =~= lengths(text_slots(self)));
        r
    }
}

impl Row<usize, usize> {
    /// A row of `columns` data cells whose every slot is zero.
    pub fn zeros(columns: usize) -> (r: Row<usize, usize>)
        ensures
            r.cells@.len() == columns,
            width_slots(&r) == Seq::new(columns as nat + 1, |j: int| 0int),
    {
        let mut cells: Vec<usize> = Vec::new();
        let mut i: usize = 0;
        while i < columns
            invariant
                i <= columns,
                cells@.len() == i,
                forall|k: int| 0 <= k < i ==> cells@[k] == 0,
            decreases columns - i,
        {
            cells.push(0);
            i = i + 1;
        }
        let r = Row { label: 0, cells };
        assert(width_slots(&r) =~= Seq::new(columns as nat + 1, |j: int| 0int));
        r
    }

    /// The slot-wise maximum of two rows of the same shape.
    pub fn max(lhs: &Self, rhs: &Self) -> (r: Self)
        requires
            lhs.cells@.len() == rhs.cells@.len(),
        ensures
            r.cells@.len() == lhs.cells@.len(),
            width_slots(&r) == max_each(width_slots(lhs), width_slots(rhs)),
    {
        let n = lhs.cells.len();
        let mut cells: Vec<usize> = Vec::new();
        let mut i: usize = 0;
        while i < n
            invariant
                n == lhs.cells@.len(),
                n == rhs.cells@.len(),
                i <= n,
                cells@.len() == i,
                forall|k: int|
                    0 <= k < i ==> cells@[k] == if lhs.cells@[k] >= rhs.cells@[k] {
                        lhs.cells@[k]
                    } else {
                        rhs.cells@[k]
                    },
            decreases n - i,
        {
            let a = lhs.cells[i];
            let b = rhs.cells[i];
            cells.push(if a >= b { a } else { b });
            i = i + 1;
        }
        let label = if lhs.label >= rhs.label { lhs.label } else { rhs.label };
        let r = Row { label, cells };
        assert(width_slots(&r) =~= max_each(width_slots(lhs), width_slots(rhs)));
        r
    }
}

impl Row<Alignment, Alignment> {
    /// The canonical marker of every slot, as a text row.
    pub fn markers(&self) -> (r: Row<String, String>)
        ensures
            r.cells@.len() == self.cells@.len(),
            text_slots(&r) == marker_slots(self.slots()),
    {
        let label = String::from_str(self.label.marker());
        let mut cells: Vec<String> = Vec::new();
        let n = self.cells.len();
        let mut i: usize = 0;
        while i < n
            invariant
                n == self.cells@.len(),
                i <= n,
                cells@.len() == i,
                forall|k: int| 0 <= k < i ==> cells@[k]@ == marker_of(self.cells@[k]),
            decreases n - i,
        {
            cells.push(String::from_str(self.cells[i].marker()));
            i = i + 1;
        }
        let r = Row { label, cells };
        assert(text_slots(&r) =~= marker_slots(self.slots()));
        r
    }
}

/// The marker text of each alignment.
pub open spec fn marker_slots(a: Seq<Alignment>) -> Seq<Seq<char>> {
    a.map_values(|x: Alignment| marker_of(x))
}

/// The slot-wise maximum is commutative.
pub proof fn lemma_max_each_commutative(a: Seq<int>, b: Seq<int>)
    requires
        a.len() == b.len(),
    ensures
        max_each(a, b) == max_each(b, a),
{
    assert(max_each(a, b) =~= max_each(b, a));
}

/// The slot-wise maximum is associative.
pub proof fn lemma_max_each_associative(a: Seq<int>, b: Seq<int>, c: Seq<int>)
    requires
        a.len() == b.len(),
        b.len() == c.len(),
    ensures
        max_each(max_each(a, b), c) == max_each(a, max_each(b, c)),
{
    assert(max_each(max_each(a, b), c) =~= max_each(a, max_each(b, c)));
}

} // verus!
