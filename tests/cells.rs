use text_table::render::{format_row, pad};
use text_table::{Alignment, Row};

fn text_row(label: &str, cells: &[&str]) -> Row<String, String> {
    Row::new(label.to_string(), cells.iter().map(|c| c.to_string()).collect())
}

#[test]
fn pad_left_right() {
    assert_eq!(pad("ab", 5, Alignment::Left), "ab   ");
    assert_eq!(pad("ab", 5, Alignment::Right), "   ab");
}

#[test]
fn pad_center_even_difference() {
    assert_eq!(pad("ab", 6, Alignment::Center), "  ab  ");
}

#[test]
fn pad_center_odd_difference() {
    assert_eq!(pad("ab", 5, Alignment::Center), " ab  ");
    assert_eq!(pad("a", 4, Alignment::Center), " a  ");
}

#[test]
fn pad_never_truncates() {
    for a in [Alignment::Left, Alignment::Center, Alignment::Right] {
        assert_eq!(pad("abcdef", 3, a), "abcdef");
        assert_eq!(pad("abc", 3, a), "abc");
        assert_eq!(pad("", 0, a), "");
    }
}

#[test]
fn padded_length_is_max_of_text_and_width() {
    for a in [Alignment::Left, Alignment::Center, Alignment::Right] {
        for text in ["", "x", "hello"] {
            for width in 0..8usize {
                let expected = if text.len() > width { text.len() } else { width };
                assert_eq!(pad(text, width, a).chars().count(), expected);
            }
        }
    }
}

#[test]
fn pad_counts_characters() {
    assert_eq!(pad("é", 3, Alignment::Right), "  é");
}

#[test]
fn row_widths_and_max() {
    let r = text_row("Alice", &["30", "NYC"]);
    let w = r.widths();
    assert_eq!(w.label, 5);
    assert_eq!(w.cells, vec![2, 3]);
    let other = Row::new(3usize, vec![7usize, 1]);
    let m = Row::max(&w, &other);
    assert_eq!(m.label, 5);
    assert_eq!(m.cells, vec![7, 3]);
    let z = Row::zeros(2);
    assert_eq!(z.label, 0);
    assert_eq!(z.cells, vec![0, 0]);
}

#[test]
fn row_accessors() {
    let r = text_row("Bob", &["7", "LA"]);
    assert_eq!(r.label(), "Bob");
    assert_eq!(r.cell(1), "LA");
    assert_eq!(r.columns(), 2);
    assert_eq!(r.index(0), "Bob");
    assert_eq!(r.index(1), "7");
    assert_eq!(r.index(2), "LA");
}

#[test]
fn default_and_marker_rows() {
    let d = Alignment::default_row(2);
    assert_eq!(d.label, Alignment::Left);
    assert_eq!(d.cells, vec![Alignment::Right, Alignment::Right]);
    let m = Row::new(Alignment::Center, vec![Alignment::Left]).markers();
    assert_eq!(m.label, ":---:");
    assert_eq!(m.cells, vec!["---".to_string()]);
}

#[test]
fn format_one_row() {
    let content = text_row("ab", &["c", "d"]);
    let widths = Row::new(4usize, vec![3usize, 3]);
    let aligns = Row::new(Alignment::Left, vec![Alignment::Right, Alignment::Center]);
    assert_eq!(format_row(&content, &widths, &aligns), "ab   |   c |  d ");
}

#[test]
fn format_row_without_data_columns() {
    let content = text_row("ab", &[]);
    let widths = Row::new(3usize, vec![]);
    let aligns = Row::new(Alignment::Right, vec![]);
    assert_eq!(format_row(&content, &widths, &aligns), " ab");
}
