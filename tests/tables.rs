use text_table::{Alignment, Builder, Row};

fn text_row(label: &str, cells: &[&str]) -> Row<String, String> {
    Row::new(label.to_string(), cells.iter().map(|c| c.to_string()).collect())
}

#[test]
fn end_to_end_default_alignments() {
    let mut b = Builder::new(1);
    b.header(text_row("Name", &["Age"]));
    b.default_alignments();
    b.row(text_row("Alice", &["30"]));
    b.row(text_row("Bo", &["7"]));
    let t = b.finish();
    assert_eq!(t.widths().label, 5);
    assert_eq!(t.widths().cells, vec![3]);
    assert_eq!(
        t.render(),
        "Name  | Age\n---   | ---:\nAlice |  30\nBo    |   7\n"
    );
}

#[test]
fn alignments_default_when_never_set() {
    let mut b = Builder::new(1);
    b.header(text_row("Name", &["Age"]));
    b.row(text_row("Alice", &["30"]));
    b.row(text_row("Bo", &["7"]));
    assert_eq!(
        b.finish().render(),
        "Name  | Age\n---   | ---:\nAlice |  30\nBo    |   7\n"
    );
}

#[test]
fn two_columns_four_lines_in_order() {
    let mut b = Builder::new(2);
    b.header(text_row("Name", &["Age", "City"]));
    b.row(text_row("Alice", &["30", "NYC"]));
    b.row(text_row("Bob", &["7", "LA"]));
    let text = b.finish().render();
    let lines: Vec<&str> = text.lines().collect();
    assert_eq!(lines.len(), 4);
    for line in &lines {
        assert_eq!(line.matches(" | ").count(), 2);
    }
    assert_eq!(
        lines,
        vec![
            "Name  | Age | City",
            "---   | ---: | ---:",
            "Alice |  30 |  NYC",
            "Bob   |   7 |   LA",
        ]
    );
}

#[test]
fn explicit_alignments_widen_columns() {
    let mut b = Builder::new(2);
    b.alignments(Row::new(
        Alignment::Center,
        vec![Alignment::Left, Alignment::Center],
    ));
    b.header(text_row("N", &["a", "b"]));
    b.row(text_row("x", &["1", "2"]));
    let t = b.finish();
    assert_eq!(t.widths().label, 5);
    assert_eq!(t.widths().cells, vec![3, 5]);
    assert_eq!(
        t.render(),
        "  N   | a   |   b  \n:---: | --- | :---:\n  x   | 1   |   2  \n"
    );
}

#[test]
fn widths_cover_every_cell() {
    let rows = [
        ("a", ["bbbb", ""]),
        ("cccccc", ["d", "ee"]),
        ("", ["", "fffffff"]),
    ];
    let mut b = Builder::new(2);
    b.row(text_row(rows[0].0, &rows[0].1));
    b.header(text_row("hh", &["h", "hhh"]));
    b.row(text_row(rows[1].0, &rows[1].1));
    b.row(text_row(rows[2].0, &rows[2].1));
    let t = b.finish();
    let w = t.widths();
    assert_eq!(w.label, 6);
    assert_eq!(w.cells, vec![4, 7]);
    for (label, cells) in rows.iter() {
        assert!(label.len() <= w.label);
        for (i, c) in cells.iter().enumerate() {
            assert!(c.len() <= w.cells[i]);
        }
    }
}

#[test]
fn header_only_table() {
    let mut b = Builder::new(0);
    b.header(text_row("Only", &[]));
    assert_eq!(b.finish().render(), "Only\n--- \n");
}

#[test]
fn empty_header_texts_use_marker_lengths_only_when_explicit() {
    let mut b = Builder::new(1);
    b.header(text_row("", &[""]));
    let t = b.finish();
    assert_eq!(t.widths().label, 0);
    assert_eq!(t.widths().cells, vec![0]);
    assert_eq!(t.render(), " | \n--- | ---:\n");
}
