use scriptx::errors::Error;
use scriptx::probe::{Chapter, Root, Tags};
use scriptx::titles::get_verse_from_title;

fn catalog_ending_in(title: &str) -> Root {
    Root {
        chapters: vec![Chapter {
            id: 1,
            time_base: String::from("1/1000"),
            start: 0,
            start_time: String::from("0.000000"),
            end: 1000,
            end_time: String::from("1.000000"),
            tags: Tags { title: String::from(title) },
        }],
    }
}

#[test]
fn prefix_runs_through_the_last_colon() {
    assert_eq!(catalog_ending_in("John 3:26").get_prefix().unwrap(), "John 3:");
    assert_eq!(catalog_ending_in("a:b:c").get_prefix().unwrap(), "a:b:");
    assert_eq!(catalog_ending_in(":").get_prefix().unwrap(), ":");
    assert_eq!(catalog_ending_in("::").get_prefix().unwrap(), "::");
    assert_eq!(catalog_ending_in("Joel 1:").get_prefix().unwrap(), "Joel 1:");
    assert_eq!(catalog_ending_in(":7").get_prefix().unwrap(), ":");
}

#[test]
fn prefix_spans_lines_and_wide_characters() {
    assert_eq!(catalog_ending_in("first\nsecond 2:4").get_prefix().unwrap(), "first\nsecond 2:");
    assert_eq!(catalog_ending_in("Ψαλμοί 18:32").get_prefix().unwrap(), "Ψαλμοί 18:");
    assert_eq!(catalog_ending_in("詩篇 18:32").get_prefix().unwrap(), "詩篇 18:");
    assert_eq!(catalog_ending_in("\r\n:\n").get_prefix().unwrap(), "\r\n:");
}

#[test]
fn prefix_differs_from_the_title_it_is_taken_from() {
    let root = catalog_ending_in("John 3:26");
    assert_ne!(root.get_prefix().unwrap(), "John 3:26");
}

#[test]
fn prefix_needs_a_colon() {
    assert_eq!(catalog_ending_in("John 3 26").get_prefix(), Err(Error::PrefixNotMatch));
    assert_eq!(catalog_ending_in("").get_prefix(), Err(Error::PrefixNotMatch));
    assert_eq!(catalog_ending_in("John 3;26").get_prefix(), Err(Error::PrefixNotMatch));
}

#[test]
fn prefix_of_an_empty_catalog_is_missing() {
    let root = Root { chapters: vec![] };
    assert_eq!(root.get_prefix(), Err(Error::PrefixNotMatch));
}

#[test]
fn prefix_comes_from_the_last_title_only() {
    let mut root = catalog_ending_in("Genesis 1:1");
    root.chapters.push(catalog_ending_in("John 3:16").chapters.remove(0));
    assert_eq!(root.get_prefix().unwrap(), "John 3:");
    root.chapters.push(catalog_ending_in("no separator").chapters.remove(0));
    assert_eq!(root.get_prefix(), Err(Error::PrefixNotMatch));
}

#[test]
fn verse_number_is_what_follows_the_last_colon() {
    assert_eq!(get_verse_from_title("John 3:16"), Ok(16));
    assert_eq!(get_verse_from_title("a:b:12"), Ok(12));
    assert_eq!(get_verse_from_title("1:2:3"), Ok(3));
    assert_eq!(get_verse_from_title("Ψαλμοί 18:32"), Ok(32));
    assert_eq!(get_verse_from_title("176"), Ok(176));
}

#[test]
fn verse_number_takes_a_sign_and_leading_zeros() {
    assert_eq!(get_verse_from_title("x:+5"), Ok(5));
    assert_eq!(get_verse_from_title("x:-7"), Ok(-7));
    assert_eq!(get_verse_from_title("x:007"), Ok(7));
    assert_eq!(get_verse_from_title("x:0"), Ok(0));
    assert_eq!(get_verse_from_title("x:-0"), Ok(0));
    assert_eq!(get_verse_from_title("x:0000000000000000000000000016"), Ok(16));
}

#[test]
fn verse_number_stays_within_i32() {
    assert_eq!(get_verse_from_title("x:2147483647"), Ok(i32::MAX));
    assert_eq!(get_verse_from_title("x:-2147483648"), Ok(i32::MIN));
    assert_eq!(
        get_verse_from_title("x:2147483648"),
        Err(Error::VerseFromTitle { item: String::from("2147483648") })
    );
    assert_eq!(
        get_verse_from_title("x:-2147483649"),
        Err(Error::VerseFromTitle { item: String::from("-2147483649") })
    );
    assert_eq!(
        get_verse_from_title("x:99999999999999999999999"),
        Err(Error::VerseFromTitle { item: String::from("99999999999999999999999") })
    );
}

#[test]
fn verse_number_rejects_anything_but_a_numeral() {
    for item in ["", "+", "-", " 5", "5 ", "5a", "a5", "1_0", "1.0", "+-5", "--5", "٣", "５", "sixteen"] {
        let title = format!("John 3:{}", item);
        assert_eq!(
            get_verse_from_title(&title),
            Err(Error::VerseFromTitle { item: String::from(item) })
        );
    }
    assert_eq!(
        get_verse_from_title("John"),
        Err(Error::VerseFromTitle { item: String::from("John") })
    );
    assert_eq!(get_verse_from_title(""), Err(Error::VerseFromTitle { item: String::new() }));
}

#[test]
fn verse_number_agrees_with_the_standard_parser() {
    let items = [
        "0", "1", "9", "10", "16", "176", "+1", "-1", "+0", "-0", "00", "010", "2147483647",
        "2147483648", "-2147483648", "-2147483649", "4294967296", "", "+", "-", "++1", "1+", "1-",
        " 1", "1 ", "0x10", "1e3", "١٦", "12345678901234567890", "-12345678901234567890",
        "000000000000000000002147483647", "-000000000000000000002147483648",
    ];
    for item in items {
        let title = format!("Ps. 119:{}", item);
        assert_eq!(get_verse_from_title(&title).ok(), item.parse::<i32>().ok(), "{:?}", item);
    }
}
