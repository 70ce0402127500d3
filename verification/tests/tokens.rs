use scriptx::errors::Error;
use scriptx::token::{range_split, verse_kind, VerseKind};

#[test]
fn a_dash_makes_a_range() {
    assert_eq!(verse_kind("5"), VerseKind::SingleVerse);
    assert_eq!(verse_kind("5-7"), VerseKind::RangeVerse);
    assert_eq!(verse_kind(""), VerseKind::SingleVerse);
    assert_eq!(verse_kind("-"), VerseKind::RangeVerse);
    assert_eq!(verse_kind("5-"), VerseKind::RangeVerse);
    assert_eq!(verse_kind("1-2-3"), VerseKind::RangeVerse);
    assert_eq!(verse_kind("sixteen"), VerseKind::SingleVerse);
    assert_eq!(verse_kind("5–7"), VerseKind::SingleVerse);
}

#[test]
fn a_range_splits_at_its_only_dash() {
    assert_eq!(range_split("5-17"), Ok(("5", "17")));
    assert_eq!(range_split("16-17"), Ok(("16", "17")));
    assert_eq!(range_split("17-16"), Ok(("17", "16")));
    assert_eq!(range_split("a-b"), Ok(("a", "b")));
    assert_eq!(range_split("α-βγ"), Ok(("α", "βγ")));
}

#[test]
fn a_range_may_have_an_empty_side() {
    assert_eq!(range_split("5-"), Ok(("5", "")));
    assert_eq!(range_split("-5"), Ok(("", "5")));
    assert_eq!(range_split("-"), Ok(("", "")));
}

#[test]
fn a_token_without_a_dash_does_not_split() {
    assert_eq!(range_split("5"), Err(Error::InvalidRangeFormat));
    assert_eq!(range_split(""), Err(Error::InvalidRangeFormat));
    assert_eq!(range_split("5–7"), Err(Error::InvalidRangeFormat));
}

#[test]
fn a_token_with_several_dashes_does_not_split() {
    assert_eq!(range_split("1-2-3"), Err(Error::InvalidRangeFormat));
    assert_eq!(range_split("--"), Err(Error::InvalidRangeFormat));
    assert_eq!(range_split("5--7"), Err(Error::InvalidRangeFormat));
    assert_eq!(range_split("-5-"), Err(Error::InvalidRangeFormat));
}
