use scriptx::errors::Error;
use scriptx::probe::{Chapter, Root, Tags};
use scriptx::text::parse_decimal;
use scriptx::titles::get_verse_from_title;
use scriptx::token::{range_split, verse_kind, VerseKind};

/// Every text of at most `longest` characters over `alphabet`.
fn texts_over(alphabet: &[char], longest: usize) -> Vec<String> {
    let mut all = vec![String::new()];
    let mut last = vec![String::new()];
    for _ in 0..longest {
        let mut next = Vec::new();
        for text in last.iter() {
            for c in alphabet.iter() {
                let mut longer = text.clone();
                longer.push(*c);
                next.push(longer);
            }
        }
        all.extend(next.iter().cloned());
        last = next;
    }
    all
}

fn catalog_of(title: &str) -> Root {
    Root {
        chapters: vec![Chapter {
            id: 1,
            time_base: String::from("1/1000"),
            start: 0,
            start_time: String::from("0.000000"),
            end: 1000,
            end_time: String::from("1.000000"),
            tags: Tags { title: String::from(title) },
        }],
    }
}

#[test]
fn prefix_of_every_short_title() {
    for title in texts_over(&[':', 'a', ' ', '\n', 'é'], 5) {
        let root = catalog_of(&title);
        match title.rfind(':') {
            Some(at) => assert_eq!(root.get_prefix(), Ok(&title[..at + 1]), "{:?}", title),
            None => assert_eq!(root.get_prefix(), Err(Error::PrefixNotMatch), "{:?}", title),
        }
    }
}

#[test]
fn numeral_of_every_short_text() {
    for text in texts_over(&['+', '-', '0', '1', '9', ' ', 'a'], 5) {
        assert_eq!(parse_decimal(&text), text.parse::<i32>().ok(), "{:?}", text);
    }
}

#[test]
fn numeral_near_the_bounds() {
    for head in ["214748364", "-214748364", "+214748364", "0214748364", "21474836", "-21474836"] {
        for tail in texts_over(&['0', '6', '7', '8', '9'], 2) {
            let text = format!("{}{}", head, tail);
            assert_eq!(parse_decimal(&text), text.parse::<i32>().ok(), "{:?}", text);
        }
    }
}

#[test]
fn verse_number_of_every_short_title() {
    for title in texts_over(&[':', '1', '-', 'a'], 5) {
        let suffix = match title.rfind(':') {
            Some(at) => &title[at + 1..],
            None => &title[..],
        };
        let expected = match suffix.parse::<i32>() {
            Ok(number) => Ok(number),
            Err(_) => Err(Error::VerseFromTitle { item: String::from(suffix) }),
        };
        assert_eq!(get_verse_from_title(&title), expected, "{:?}", title);
    }
}

#[test]
fn split_of_every_short_token() {
    for token in texts_over(&['-', '1', '7', 'é'], 5) {
        let parts: Vec<&str> = token.split('-').collect();
        let kind = if parts.len() > 1 { VerseKind::RangeVerse } else { VerseKind::SingleVerse };
        assert_eq!(verse_kind(&token), kind, "{:?}", token);
        if parts.len() == 2 {
            assert_eq!(range_split(&token), Ok((parts[0], parts[1])), "{:?}", token);
        } else {
            assert_eq!(range_split(&token), Err(Error::InvalidRangeFormat), "{:?}", token);
        }
    }
}
