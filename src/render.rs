//! Padding cells to their column width and joining them into lines.
use vstd::prelude::*;

use crate::alignment::Alignment;
use crate::row::{Row, text_slots, width_slots};

verus! {

/// `n` spaces (none when `n` is not positive).
pub open spec fn spaces(n: int) -> Seq<char> {
    Seq::new(if n > 0 { n as nat } else { 0 }, |i: int| ' ')
}

/// `text` padded with spaces to at least `width` characters as `align` says.
/// Text longer than the width is kept whole; an odd space in a centred cell
/// goes after the text.
pub open spec fn padded(text: Seq<char>, width: int, align: Alignment) -> Seq<char> {
    let gap = width - text.len();
    if gap <= 0 {
        text
    } else {
        match align {
            Alignment::Left => text + spaces(gap),
            Alignment::Right => spaces(gap) + text,
            Alignment::Center => spaces(gap / 2) + text + spaces(gap - gap / 2),
        }
    }
}

/// The separator between two cells of a line.
pub open spec fn separator() -> Seq<char> {
    seq![' ', '|', ' ']
}

/// The parts one after the other, with a separator between each two.
pub open spec fn joined(parts: Seq<Seq<char>>) -> Seq<char>
    decreases parts.len(),
{
    if parts.len() == 0 {
        Seq::empty()
    } else if parts.len() == 1 {
        parts[0]
    } else {
        joined(parts.drop_last()) + separator() + parts.last()
    }
}

/// Each slot's text padded to its width and alignment.
pub open spec fn padded_slots(text: Seq<Seq<char>>, widths: Seq<int>, aligns: Seq<Alignment>) -> Seq<
    Seq<char>,
> {
    Seq::new(text.len(), |i: int| padded(text[i], widths[i], aligns[i]))
}

/// The line of one row: its padded slots joined by separators.
pub open spec fn line_of(text: Seq<Seq<char>>, widths: Seq<int>, aligns: Seq<Alignment>) -> Seq<
    char,
> {
    joined(padded_slots(text, widths, aligns))
}

/// Appends `n` spaces to `out`.
fn push_spaces(out: &mut String, n: usize)
    ensures
        final(out)@ == old(out)@ + spaces(n as int),
{
    let mut i: usize = 0;
    while i < n
        invariant
            i <= n,
            out@ == old(out)@ + spaces(i as int),
        decreases n - i,
    {
        proof {
            reveal_strlit(" ");
        }
        out.append(" ");
        assert(out@ =~= old(out)@ + spaces(i as int + 1));
        i = i + 1;
    }
}

/// `text` padded with spaces to `width` characters as `align` says; text
/// longer than `width` is returned whole.
pub fn pad(text: &str, width: usize, align: Alignment) -> (r: String)
    ensures
        r@ == padded(text@, width as int, align),
        r@.len() == if text@.len() >= width { text@.len() } else { width as nat },
{
    let len = text.unicode_len();
    let mut out = String::new();
    if len >= width {
        out.append(text);
        assert(out@ =~= text@);
        return out;
    }
    let gap = width - len;
    match align {
        Alignment::Left => {
            out.append(text);
            push_spaces(&mut out, gap);
        },
        Alignment::Right => {
            push_spaces(&mut out, gap);
            out.append(text);
        },
        Alignment::Center => {
            push_spaces(&mut out, gap / 2);
            out.append(text);
            push_spaces(&mut out, gap - gap / 2);
        },
    }
    assert(out@ =~= padded(text@, width as int, align));
    out
}

/// The line of a row: the label padded to its width, then for each data cell
/// the separator ` | ` and the cell padded to its width.
pub fn format_row(
    content: &Row<String, String>,
    widths: &Row<usize, usize>,
    aligns: &Row<Alignment, Alignment>,
) -> (r: String)
    requires
        widths.cells@.len() == content.cells@.len(),
        aligns.cells@.len() == content.cells@.len(),
    ensures
        r@ == line_of(text_slots(content), width_slots(widths), aligns.slots()),
{
    let ghost parts = padded_slots(text_slots(content), width_slots(widths), aligns.slots());
    let n = content.cells.len();
    let mut out = pad(content.label.as_str(), widths.label, aligns.label);
    assert(parts.take(1) =~= seq![out@]);
    let mut i: usize = 0;
    while i < n
        invariant
            n == content.cells@.len(),
            n == widths.cells@.len(),
            n == aligns.cells@.len(),
            parts == padded_slots(text_slots(content), width_slots(widths), aligns.slots()),
            parts.len() == n + 1,
            i <= n,
            out@ == joined(parts.take(i + 1)),
        decreases n - i,
    {
        proof {
            reveal_strlit(" | ");
        }
        out.append(" | ");
        let cell = pad(content.cells[i].as_str(), widths.cells[i], aligns.cells[i]);
        out.append(cell.as_str());
        assert(parts.take(i + 2).drop_last() =~= parts.take(i + 1));
        assert(cell@ == parts[i + 1]);
        i = i + 1;
    }
    assert(parts.take(n + 1) =~= parts);
    out
}

/// A padded cell is as long as its text or its width, whichever is more.
pub proof fn lemma_padded_len(text: Seq<char>, width: int, align: Alignment)
    ensures
        padded(text, width, align).len() == if text.len() >= width {
            text.len() as int
        } else {
            width
        },
{
}

/// Centring text of length `l` in width `w >= l` puts `(w - l) / 2` spaces
/// before it and the rest, `(w - l + 1) / 2`, after it.
pub proof fn lemma_center_balance(text: Seq<char>, width: int)
    requires
        width >= text.len(),
    ensures
        padded(text, width, Alignment::Center) == spaces((width - text.len()) / 2) + text + spaces(
            (width - text.len() + 1) / 2,
        ),
{
    let gap = width - text.len();
    assert(gap - gap / 2 == (gap + 1) / 2);
    if gap == 0 {
        assert(spaces(0) + text + spaces(0) =~= text);
    }
}

} // verus!
