//! Column alignments and their textual markers.
use vstd::prelude::*;

use crate::row::Row;

verus! {

/// How the text of a column is placed within the column's width.
#[derive(Debug, Clone, Copy, PartialEq, Eq, Structural)]
pub enum Alignment {
    Left,
    Center,
    Right,
}

/// A marker string that denotes no alignment.
#[derive(Debug, Clone, Copy, PartialEq, Eq, Structural)]
pub struct ParseError;

/// The canonical marker of an alignment: `---`, `:---:` or `---:`.
pub open spec fn marker_of(a: Alignment) -> Seq<char> {
    match a {
        Alignment::Left => seq!['-', '-', '-'],
        Alignment::Center => seq![':', '-', '-', '-', ':'],
        Alignment::Right => seq!['-', '-', '-', ':'],
    }
}

/// The alignment that a marker denotes, if any; `:---` is read as `---`.
pub open spec fn alignment_of(s: Seq<char>) -> Option<Alignment> {
    if s == seq!['-', '-', '-'] || s == seq![':', '-', '-', '-'] {
        Some(Alignment::Left)
    } else if s == seq![':', '-', '-', '-', ':'] {
        Some(Alignment::Center)
    } else if s == seq!['-', '-', '-', ':'] {
        Some(Alignment::Right)
    } else {
        None
    }
}

/// The default alignments: `Left` for the label, `Right` for every data cell.
pub open spec fn default_alignment_slots(columns: nat) -> Seq<Alignment> {
    seq![Alignment::Left] + Seq::new(columns, |j: int| Alignment::Right)
}

/// What parsing a marker yields.
pub open spec fn parse_result(s: Seq<char>) -> Result<Alignment, ParseError> {
    match alignment_of(s) {
        Some(a) => Ok(a),
        None => Err(ParseError),
    }
}

impl Alignment {
    /// A row whose label is `Left` and whose `columns` data cells are `Right`.
    pub fn default_row(columns: usize) -> (r: Row<Alignment, Alignment>)
        ensures
            r.cells@.len() == columns,
            r.slots() == default_alignment_slots(columns as nat),
    {
        let mut cells: Vec<Alignment> = Vec::new();
        let mut i: usize = 0;
        while i < columns
            invariant
                i <= columns,
                cells@.len() == i,
                forall|k: int| 0 <= k < i ==> cells@[k] == Alignment::Right,
            decreases columns - i,
        {
            cells.push(Alignment::Right);
            i = i + 1;
        }
        let r = Row { label: Alignment::Left, cells };
        assert(r.slots() =~= default_alignment_slots(columns as nat));
        r
    }

    /// Reads an alignment marker: `---` and `:---` give `Left`, `:---:` gives
    /// `Center`, `---:` gives `Right`; anything else is an error.
    pub fn parse(s: &str) -> (r: Result<Alignment, ParseError>)
        ensures
            r == parse_result(s@),
    {
        let n = s.unicode_len();
        if n < 3 || n > 5 {
            return Err(ParseError);
        }
        let c0 = s.get_char(0);
        let c1 = s.get_char(1);
        let c2 = s.get_char(2);
        if n == 3 {
            assert(s@ =~= seq![c0, c1, c2]);
            if c0 == '-' && c1 == '-' && c2 == '-' {
                Ok(Alignment::Left)
            } else {
                Err(ParseError)
            }
        } else if n == 4 {
            let c3 = s.get_char(3);
            assert(s@ =~= seq![c0, c1, c2, c3]);
            if c1 == '-' && c2 == '-' && c0 == ':' && c3 == '-' {
                Ok(Alignment::Left)
            } else if c1 == '-' && c2 == '-' && c0 == '-' && c3 == ':' {
                Ok(Alignment::Right)
            } else {
                Err(ParseError)
            }
        } else {
            let c3 = s.get_char(3);
            let c4 = s.get_char(4);
            assert(s@ =~= seq![c0, c1, c2, c3, c4]);
            if c0 == ':' && c1 == '-' && c2 == '-' && c3 == '-' && c4 == ':' {
                Ok(Alignment::Center)
            } else {
                Err(ParseError)
            }
        }
    }

    /// The canonical marker of this alignment (`---` for `Left`).
    pub fn marker(&self) -> (r: &'static str)
        ensures
            r@ == marker_of(*self),
    {
        match self {
            Alignment::Left => {
                let m = "---";
                proof {
                    reveal_strlit("---");
                }
                assert(m@ =~= marker_of(*self));
                m
            },
            Alignment::Center => {
                let m = ":---:";
                proof {
                    reveal_strlit(":---:");
                }
                assert(m@ =~= marker_of(*self));
                m
            },
            Alignment::Right => {
                let m = "---:";
                proof {
                    reveal_strlit("---:");
                }
                assert(m@ =~= marker_of(*self));
                m
            },
        }
    }
}

impl std::str::FromStr for Alignment {
    type Err = ParseError;

    fn from_str(s: &str) -> (r: Result<Alignment, ParseError>)
        ensures
            r == parse_result(s@),
    {
        Alignment::parse(s)
    }
}

/// Reading the canonical marker of an alignment gives that alignment back.
pub proof fn lemma_marker_round_trip(a: Alignment)
    ensures
        alignment_of(marker_of(a)) == Some(a),
        parse_result(marker_of(a)) == Ok::<Alignment, ParseError>(a),
{
    let left = seq!['-', '-', '-'];
    let left_alias = seq![':', '-', '-', '-'];
    let center = seq![':', '-', '-', '-', ':'];
    let right = seq!['-', '-', '-', ':'];
    assert(left[0] != left_alias[0]);
    assert(center.len() != left.len() && center.len() != left_alias.len());
    assert(right.len() != left.len() && right[0] != left_alias[0] && right.len() != center.len());
}

} // verus!
