use std::str::FromStr;

use text_table::{Alignment, ParseError};

#[test]
fn parse_recognised_markers() {
    assert_eq!(Alignment::parse("---"), Ok(Alignment::Left));
    assert_eq!(Alignment::parse(":---"), Ok(Alignment::Left));
    assert_eq!(Alignment::parse(":---:"), Ok(Alignment::Center));
    assert_eq!(Alignment::parse("---:"), Ok(Alignment::Right));
}

#[test]
fn parse_rejects_other_text() {
    assert_eq!(Alignment::parse("bogus"), Err(ParseError));
    assert_eq!(Alignment::parse(""), Err(ParseError));
    assert_eq!(Alignment::parse("--"), Err(ParseError));
    assert_eq!(Alignment::parse("----"), Err(ParseError));
    assert_eq!(Alignment::parse(":--:"), Err(ParseError));
    assert_eq!(Alignment::parse("---::"), Err(ParseError));
    assert_eq!(Alignment::parse(":----:"), Err(ParseError));
}

#[test]
fn marker_aliasing() {
    assert_eq!(Alignment::parse("---"), Alignment::parse(":---"));
    assert_eq!(Alignment::parse("---"), Ok(Alignment::Left));
    assert!(Alignment::parse("bogus").is_err());
}

#[test]
fn canonical_markers() {
    assert_eq!(Alignment::Left.marker(), "---");
    assert_eq!(Alignment::Center.marker(), ":---:");
    assert_eq!(Alignment::Right.marker(), "---:");
}

#[test]
fn marker_round_trip() {
    for a in [Alignment::Left, Alignment::Center, Alignment::Right] {
        assert_eq!(Alignment::parse(a.marker()), Ok(a));
    }
}

#[test]
fn from_str_matches_parse() {
    let a: Result<Alignment, ParseError> = ":---:".parse();
    assert_eq!(a, Ok(Alignment::Center));
    let b: Result<Alignment, ParseError> = "x".parse();
    assert_eq!(b, Err(ParseError));
}

#[test]
fn from_str_reads_markers_exactly() {
    for a in [Alignment::Left, Alignment::Center, Alignment::Right] {
        assert_eq!(Alignment::from_str(a.marker()), Ok(a));
    }
    assert_eq!(Alignment::from_str("---"), Ok(Alignment::Left));
    assert_eq!(Alignment::from_str(":---"), Ok(Alignment::Left));
    assert_eq!(Alignment::from_str(":---:"), Ok(Alignment::Center));
    assert_eq!(Alignment::from_str("---:"), Ok(Alignment::Right));
    for bad in ["bogus", "", "----", " ---", ":--:", "---: "] {
        assert_eq!(Alignment::from_str(bad), Err(ParseError));
    }
}
